use chinhta::bang_chu::BangChu;
use chinhta::dau_thanh::Kieu;
use chinhta::de_nham;
use chinhta::soat::{
    cau_chua, chot_cum_ten_rieng, chot_ten_rieng, cua_so_cho_trong, gom_cum_ten_rieng, gom_ten_rieng, BangChung,
    BoSoat, ChoXet, DemCum, KetQua, LuaChon, NguCanh, TuyChon, LAN_DE_LA_TEN_RIENG,
};
use chinhta::sua::{DoChac, Loai};
use chinhta::tu_dien::TuDien;
use chinhta::typo;

const BANG_DE_NHAM: &str = "[LUON_SAI]\nxử dụng => sử dụng\n\n[TUY_NGHIA]\nchia xẻ | chia sẻ\n";

fn bo_voi(tu_dien: TuDien) -> BoSoat {
    BoSoat::moi(TuyChon::default(), Kieu::Cu, tu_dien, de_nham::Bang::nap(BANG_DE_NHAM), typo::Bang::nap(""))
}

fn bo() -> BoSoat {
    bo_voi(TuDien::rong())
}

fn cho(pham_vi: std::ops::Range<usize>, goc: &str, ung_vien: &[&str], loai: Loai, bc: BangChung) -> ChoXet {
    ChoXet {
        pham_vi,
        goc: goc.to_string(),
        ung_vien: ung_vien.iter().map(|s| s.to_string()).collect(),
        loai,
        ly_do: "thử".to_string(),
        bang_chung: bc,
    }
}

#[test]
fn chay_het_cac_tang_tren_mot_doan() {
    let mut kq = bo().soat("Anh ấy xử dụng máy tính , rồi   đi ra .");
    bo().quyet_khong_mo_hinh(&mut kq);
    assert_eq!(kq.chu, "Anh ấy sử dụng máy tính, rồi đi ra.");
    assert!(kq.da_sua.len() >= 3, "{:?}", kq.da_sua);
}

#[test]
fn van_ban_sach_thi_khong_doi_gi() {
    let v = "Anh ấy nói: “Tôi không biết.” Rồi bỏ đi, chẳng ngoái lại.";
    let mut kq = bo().soat(v);
    bo().quyet_khong_mo_hinh(&mut kq);
    assert_eq!(kq.chu, v);
    assert!(kq.da_sua.is_empty(), "{:?}", kq.da_sua);
    assert!(kq.cho_xet.is_empty(), "{:?}", kq.cho_xet);
}

#[test]
fn dau_cau_xen_giua_thi_khong_phai_mot_cum() {
    let td = TuDien::nap(
        "hỏa\ndương\nđi\nrồi\nnhưng\nhàn\nlập\nvẫn\nngồi\nđám\ncao\ntầng\ntộc\nkhông\ndám\ntới\n",
        "",
    );
    let mut dem = DemCum::moi();
    for _ in 0..LAN_DE_LA_TEN_RIENG {
        gom_cum_ten_rieng("Hỏa, Dương đi rồi. Nhưng Hàn Lập vẫn ngồi.", &td, &mut dem);
    }
    let cum = chot_cum_ten_rieng(dem);
    assert!(!cum.contains("hỏa dương"));
    assert!(!cum.contains("nhưng hàn"));
    assert!(cum.contains("hàn lập"));

    let mut dem = DemCum::moi();
    for _ in 0..LAN_DE_LA_TEN_RIENG + 4 {
        gom_cum_ten_rieng("Đám cao tầng Hỏa Duơng Tộc không dám tới.", &td, &mut dem);
    }
    let cum = chot_cum_ten_rieng(dem);
    assert!(!cum.contains("hỏa duơng"));
    assert!(!cum.contains("duơng tộc"));
}

#[test]
fn cum_da_co_trong_tu_dien_pho_thong_thi_khong_lay() {
    let td = TuDien::nap(
        "một\ncuộc\ngọi\ntới\nchúng\nta\nnên\nđi\nthiên\nuyên\nngay\n",
        "cuộc gọi\nchúng ta\n",
    );
    let mut dem = DemCum::moi();
    for _ in 0..LAN_DE_LA_TEN_RIENG {
        gom_cum_ten_rieng("Một cuộc gọi tới, chúng ta nên đi Thiên Uyên ngay.", &td, &mut dem);
    }
    let cum = chot_cum_ten_rieng(dem);
    assert!(td.co_tu_ghep("cuộc gọi") && td.co_tu_ghep("chúng ta"));
    assert!(!cum.contains("cuộc gọi"));
    assert!(!cum.contains("chúng ta"));
    assert!(cum.contains("thiên uyên"));
}

#[test]
fn ten_rieng_lap_lai_thi_duoc_giu_nguyen() {
    let td = TuDien::nap("tôi\nđến\nhồng\nchơi\nở\ncó\nnhiều\nngười\nchuyến\nbay\ntới\nbị\nhoãn\n", "");
    let mut dem = BangChu::new();
    for cau in [
        "Tôi đến Hồng Kông chơi.",
        "Ở Hồng Kông có nhiều người.",
        "Chuyến bay tới Hồng Kông bị hoãn.",
    ] {
        gom_ten_rieng(cau, &td, &mut dem);
    }
    let ten = chot_ten_rieng(dem);
    assert!(ten.contains("kông"));

    let bo = bo_voi(td).voi_ten_rieng(ten);
    let v = "Tôi đến Hồng Kông chơi.";
    let mut kq = bo.soat(v);
    bo.quyet_khong_mo_hinh(&mut kq);
    assert_eq!(kq.chu, v);
}

#[test]
fn d_va_d_gach_deu_la_tu_that_nen_khong_ai_dung_vao() {
    for v in ["Tay dang rộng, việc còn dở dang.", "Anh đang làm gì đấy?"] {
        let mut kq = bo().soat(v);
        bo().quyet_khong_mo_hinh(&mut kq);
        assert_eq!(kq.chu, v);
        assert!(kq.cho_xet.is_empty(), "{:?}", kq.cho_xet);
    }
}

#[test]
fn khong_dung_vao_tu_muon_co_trong_tu_dien() {
    let v = "Cột bêtông và cái micrô cùng cái rađa";
    let mut kq = bo().soat(v);
    bo().quyet_khong_mo_hinh(&mut kq);
    assert_eq!(kq.chu, v);
    assert!(kq.cho_xet.is_empty(), "{:?}", kq.cho_xet);
}

#[test]
fn khong_dung_vao_ten_rieng_nuoc_ngoai() {
    let v = "Giáo sư Dumbledore nhìn Voldemort.";
    let mut kq = bo().soat(v);
    bo().quyet_khong_mo_hinh(&mut kq);
    assert_eq!(kq.chu, v);
}

#[test]
fn cap_tuy_nghia_thanh_cho_ngo_va_doi_vi_tri() {
    // Phần chắc được áp trước; chỗ ngờ phía sau phải dời theo chữ mới.
    let kq = bo().soat("Hãy xử dụng và chia xẻ nhé");
    assert_eq!(kq.chu, "Hãy sử dụng và chia xẻ nhé");
    assert_eq!(kq.cho_xet.len(), 1);
    let c = &kq.cho_xet[0];
    assert_eq!(&kq.chu[c.pham_vi.clone()], "chia xẻ");
    assert_eq!(c.ung_vien, vec!["chia sẻ".to_string()]);
    assert_eq!(c.bang_chung, BangChung::Khong);
}

#[test]
fn dung_lai_nfc_ghi_tung_chu_doi() {
    // `ế` gõ rời (e + dấu mũ + dấu sắc) được dựng lại, ghi đúng một phép sửa.
    let kq = bo().soat("Tie\u{0302}\u{0301}ng Việt");
    assert_eq!(kq.chu, "Tiếng Việt");
    assert_eq!(kq.da_sua.iter().filter(|s| s.loai == Loai::Unicode).count(), 1);
}

#[test]
fn khong_mo_hinh_chi_ap_cho_dut_khoat() {
    let mut kq = KetQua::default();
    kq.chu = "ab cd ef".to_string();
    kq.cho_xet = vec![
        cho(0..2, "ab", &["AB", "Ab"], Loai::DeNham, BangChung::TuGhep),
        cho(3..5, "cd", &["CD"], Loai::AmTietSai, BangChung::Khong),
        cho(6..8, "ef", &["EF", "Ef"], Loai::AmTietSai, BangChung::Khong),
    ];
    bo().quyet_khong_mo_hinh(&mut kq);
    assert_eq!(kq.chu, "AB CD ef");
    assert_eq!(kq.da_sua.len(), 2);
    assert_eq!(kq.da_sua[0].do_chac, DoChac::KhaChac);
    assert_eq!(kq.da_sua[1].ly_do, "thử — chỉ có một cách sửa");
    assert_eq!(kq.cho_xet.len(), 1);
    assert_eq!(kq.cho_xet[0].goc, "ef");
}

#[test]
fn mot_ung_vien_nhung_khong_phai_tieng_sai_thi_de_ngo() {
    let mut kq = KetQua::default();
    kq.chu = "chia xẻ".to_string();
    kq.cho_xet = vec![cho(0..8, "chia xẻ", &["chia sẻ"], Loai::DeNham, BangChung::Khong)];
    bo().quyet_khong_mo_hinh(&mut kq);
    assert_eq!(kq.chu, "chia xẻ");
    assert!(kq.da_sua.is_empty());
    assert_eq!(kq.cho_xet.len(), 1);
}

#[test]
fn bang_chung_thang_quyet_dinh_cua_mo_hinh() {
    let mut kq = KetQua::default();
    kq.chu = "ab cd ef".to_string();
    kq.cho_xet = vec![
        cho(0..2, "ab", &["AB", "Ab"], Loai::DeNham, BangChung::DauPhu),
        cho(3..5, "cd", &["CD", "C D"], Loai::AmTietSai, BangChung::Khong),
        cho(6..8, "ef", &["EF"], Loai::AmTietSai, BangChung::Khong),
    ];
    let quyet = vec![LuaChon::Giu, LuaChon::Chon(1, "+0.53".to_string()), LuaChon::Giu];
    bo().ap_quyet_dinh(&mut kq, &quyet);
    assert_eq!(kq.chu, "AB C D ef");
    assert!(kq.cho_xet.is_empty());
    assert_eq!(kq.da_sua.len(), 2);
    assert_eq!(kq.da_sua[0].do_chac, DoChac::KhaChac);
    assert_eq!(kq.da_sua[1].do_chac, DoChac::NgoVuc);
    assert_eq!(kq.da_sua[1].loai, Loai::DinhChu);
    assert_eq!(kq.da_sua[1].ly_do, "thử — mô hình chấm hơn +0.53");
}

#[test]
fn cau_chua_cho_sua() {
    let s = "Câu một. Câu hai có lỗi. Câu ba.";
    let vt = s.find("lỗi").unwrap();
    let r = cau_chua(s, &(vt..vt + "lỗi".len()));
    assert_eq!(&s[r], "Câu hai có lỗi.");
}

#[test]
fn cua_so_cho_trong_lay_hai_cau_moi_ben() {
    let nc = NguCanh { truoc: "Trời đã tối. Hắn ngồi im rất lâu.", sau: "Rồi hắn đứng lên. Cửa mở." };
    let doan = "Ừ nhưmg à";
    let vt = doan.find("nhưmg").unwrap();
    let (truoc, sau) = cua_so_cho_trong(doan, &nc, &(vt..vt + "nhưmg".len()));
    assert!(truoc.contains("Hắn ngồi im"), "{truoc:?}");
    assert!(truoc.ends_with("Ừ "), "{truoc:?}");
    assert!(sau.starts_with(" à"), "{sau:?}");
    assert!(sau.contains("Rồi hắn đứng lên"), "{sau:?}");
    assert!(!truoc.contains("Trời đã tối"), "{truoc:?}");
    assert!(!sau.contains("Cửa mở"), "{sau:?}");
}

#[test]
fn chen_khoang_trang_giu_hinh_chu_da_go() {
    assert_eq!(chinhta::soat::chen_khoang_trang("PhúLần", "phú lần"), "Phú Lần");
    assert_eq!(chinhta::soat::chen_khoang_trang("abcd", "ab c"), "ab c");
    assert_eq!(chinhta::soat::chen_khoang_trang("ab", "abc"), "abc");
    assert_eq!(chinhta::soat::chen_khoang_trang("", ""), "");
}

#[test]
fn khop_cum_tra_bang_cua_sach() {
    let mut bang: BangChu<()> = BangChu::new();
    assert_eq!(chinhta::soat::khop_cum(&bang, Some("Hỏa"), "Dương", Some("Tộc")), 0);
    bang.dat("hỏa dương".chars().collect(), ());
    bang.dat("dương tộc".chars().collect(), ());
    assert_eq!(chinhta::soat::khop_cum(&bang, Some("Hỏa"), "Dương", Some("Tộc")), 2);
    assert_eq!(chinhta::soat::khop_cum(&bang, Some("Hỏa"), "Dương", None), 1);
    assert_eq!(chinhta::soat::khop_cum(&bang, None, "Vương", Some("Tộc")), 0);
    // Ứng viên nhiều tiếng: tiếng đầu ghép về trước, tiếng cuối ghép về sau.
    assert_eq!(chinhta::soat::khop_cum(&bang, Some("hỏa"), "dương x", Some("ngoài")), 1);
}
