use chinhta::bang_chu::BangChu;
use chinhta::dau_thanh::Kieu;
use chinhta::de_nham;
use chinhta::soat::{
    chot_cum_ten_rieng, cua_so_cho_trong, gom_cum_ten_rieng, BangChung, BoSoat, DemCum, KieuCham, LuaChon,
    NguCanh, TuyChon, LAN_DE_LA_TEN_RIENG,
};
use chinhta::sua::Loai;
use chinhta::tu_dien::{tach_manh, TuDien};
use chinhta::typo;
use chinhta::ung_vien::UngVien;
use chinhta::xep_hang::xep_hang_ung_vien;

const AM_TIET: &str = "tình\nthương\nthường\nthưởng\ncủa\nmẹ\nừ\nà\nnhưng\nnhững\ndương\nvương\nđám\ncao\ntầng\nhỏa\ntộc\nkhông\ndám\ntới\ne\nrằng\nanh\nsợ\nmắt\nmặt\nmật\n";
const TU_GHEP: &str = "tình thương\nvương tộc\ne rằng\n";

fn tu_dien() -> TuDien {
    TuDien::nap(AM_TIET, TU_GHEP)
}

fn bo_kieu(kieu_cham: KieuCham, typo_bang: &str) -> BoSoat {
    BoSoat::moi(
        TuyChon { kieu_cham, ..TuyChon::default() },
        Kieu::Cu,
        tu_dien(),
        de_nham::Bang::nap(""),
        typo::Bang::nap(typo_bang),
    )
}

fn bo() -> BoSoat {
    bo_kieu(KieuCham::CaCau, "")
}

fn bo_cho_trong() -> BoSoat {
    bo_kieu(KieuCham::ChoTrong, "")
}

fn vi_tri(ds: &[String], chu: &str) -> usize {
    ds.iter().position(|x| x == chu).unwrap_or_else(|| panic!("thiếu `{chu}` trong {ds:?}"))
}

#[test]
fn tieng_sai_nhieu_ung_vien_thi_de_lai_cho_mo_hinh() {
    let kq = bo().soat("Tình thuơng của mẹ");
    assert_eq!(kq.cho_xet.len(), 1);
    assert!(kq.cho_xet[0].ung_vien.contains(&"thương".to_string()));
}

#[test]
fn mo_hinh_chon_ung_vien_dung() {
    let b = bo();
    let mut kq = b.soat("Tình thuơng của mẹ");
    let k = vi_tri(&kq.cho_xet[0].ung_vien, "thương");
    b.ap_quyet_dinh(&mut kq, &[LuaChon::Chon(k, "+1.00".to_string())]);
    assert_eq!(kq.chu, "Tình thương của mẹ");
}

#[test]
fn mo_hinh_thang_sit_sao_thi_khong_doi() {
    let v = "Ừ nhưmg à";
    let b = bo();
    let mut kq = b.soat(v);
    assert_eq!(kq.cho_xet[0].bang_chung, BangChung::Khong, "ca này lẽ ra không có bằng chứng dứt khoát nào");
    b.ap_quyet_dinh(&mut kq, &[LuaChon::Giu]);
    assert_eq!(kq.chu, v);
}

#[test]
fn cum_ten_rieng_cua_sach_quyet_truoc_tu_dien_pho_thong() {
    let td = tu_dien();
    let mut dem = DemCum::moi();
    for _ in 0..LAN_DE_LA_TEN_RIENG {
        gom_cum_ten_rieng("Đám cao tầng Hỏa Dương Tộc không dám tới.", &td, &mut dem);
    }
    let cum = chot_cum_ten_rieng(dem);
    assert!(cum.contains("hỏa dương"));
    assert!(cum.contains("dương tộc"));
    assert!(!cum.contains("cao tầng"));

    let b = bo().voi_cum_ten_rieng(cum);
    let mut kq = b.soat("Đám cao tầng Hỏa Duơng Tộc không dám tới.");
    assert_eq!(kq.cho_xet[0].bang_chung, BangChung::CumTenRieng, "{:?}", kq.cho_xet);
    b.ap_quyet_dinh(&mut kq, &[LuaChon::Giu]);
    assert!(kq.chu.contains("Hỏa Dương Tộc"), "{}", kq.chu);

    let b = bo();
    let kq = b.soat("Đám cao tầng Hỏa Duơng Tộc không dám tới.");
    assert_eq!(kq.cho_xet[0].ung_vien[0], "Dương", "{:?}", kq.cho_xet[0].ung_vien);
    assert_eq!(kq.cho_xet[0].bang_chung, BangChung::DauPhu);
}

#[test]
fn thieu_mot_dau_phu_thi_khong_hoi_mo_hinh() {
    let b = bo();
    let mut kq = b.soat("Ừ Duơng à");
    assert_eq!(kq.cho_xet[0].bang_chung, BangChung::DauPhu, "{:?}", kq.cho_xet);
    b.ap_quyet_dinh(&mut kq, &[LuaChon::Giu]);
    assert_eq!(kq.chu, "Ừ Dương à");

    let mut kq = b.soat("Ừ Duơng à");
    b.quyet_khong_mo_hinh(&mut kq);
    assert_eq!(kq.chu, "Ừ Dương à");
}

#[test]
fn hai_cach_them_dau_phu_deu_ra_tu_that_thi_van_phai_hoi() {
    let td = tu_dien();
    let rong: BangChu<()> = BangChu::new();
    let uv = vec![UngVien { chu: "thương".into(), gia: 2 }, UngVien { chu: "thường".into(), gia: 2 }];
    let (_, bc) = xep_hang_ung_vien("thuong", uv, Vec::new(), 0, None, None, &rong, &rong, None, &td);
    assert_eq!(bc, BangChung::Khong);

    let uv = vec![UngVien { chu: "thương".into(), gia: 2 }, UngVien { chu: "thường".into(), gia: 5 }];
    let (_, bc) = xep_hang_ung_vien("thuong", uv, Vec::new(), 0, None, None, &rong, &rong, None, &td);
    assert_eq!(bc, BangChung::DauPhu);
}

#[test]
fn tu_ghep_quyet_truoc_mo_hinh() {
    let b = bo();
    let mut kq = b.soat("Tình thuơng của mẹ");
    assert_eq!(kq.cho_xet[0].bang_chung, BangChung::TuGhep);
    b.ap_quyet_dinh(&mut kq, &[LuaChon::Giu]);
    assert_eq!(kq.chu, "Tình thương của mẹ");
}

#[test]
fn tu_ghep_sua_duoc_khi_khong_co_mo_hinh() {
    let b = bo();
    let mut kq = b.soat("Tình thuơng của mẹ");
    b.quyet_khong_mo_hinh(&mut kq);
    assert_eq!(kq.chu, "Tình thương của mẹ");
}

#[test]
fn loi_cho_trong_chon_duoc_ung_vien_dung() {
    let b = bo_cho_trong();
    let mut kq = b.soat("Ừ nhưmg à");
    let k = vi_tri(&kq.cho_xet[0].ung_vien, "nhưng");
    b.ap_quyet_dinh(&mut kq, &[LuaChon::Chon(k, "+1.00".to_string())]);
    assert_eq!(kq.chu, "Ừ nhưng à");
}

#[test]
fn loi_cho_trong_khoet_dung_cho_va_dua_du_ngu_canh() {
    let nc = NguCanh { truoc: "Trời đã tối. Hắn ngồi im rất lâu.", sau: "Rồi hắn đứng lên. Cửa mở." };
    let kq = bo_cho_trong().soat("Ừ nhưmg à");
    let cx = &kq.cho_xet[0];
    let dien = &kq.chu[cx.pham_vi.clone()];
    let (truoc, sau) = cua_so_cho_trong(&kq.chu, &nc, &cx.pham_vi);
    assert_eq!(dien, "nhưmg");
    assert!(truoc.contains("Hắn ngồi im"), "thiếu ngữ cảnh đoạn trước: {truoc:?}");
    assert!(truoc.ends_with("Ừ "), "cắt sai chỗ trống: {truoc:?}");
    assert!(sau.starts_with(" à"), "cắt sai phần đuôi: {sau:?}");
    assert!(sau.contains("Rồi hắn đứng lên"), "thiếu ngữ cảnh đoạn sau: {sau:?}");
    assert!(!truoc.contains("Trời đã tối"), "lấy quá hai câu: {truoc:?}");
    assert!(!sau.contains("Cửa mở"), "lấy quá hai câu: {sau:?}");
}

#[test]
fn loi_cho_trong_thang_sit_sao_thi_khong_doi() {
    let v = "Ừ nhưmg à";
    let b = bo_cho_trong();
    let mut kq = b.soat(v);
    b.ap_quyet_dinh(&mut kq, &[LuaChon::Giu]);
    assert_eq!(kq.chu, v);
}

#[test]
fn chu_dinh_tach_dut_khoat() {
    let kq = bo().soat("Anh sợ erằng mắt");
    assert_eq!(kq.cho_xet.len(), 1, "{:?}", kq.cho_xet);
    let cx = &kq.cho_xet[0];
    assert_eq!(cx.ung_vien, vec!["e rằng".to_string()]);
    assert_eq!(cx.bang_chung, BangChung::TachDinh);
    assert_eq!(cx.loai, Loai::DinhChu);
    assert_eq!(cx.ly_do, "`erằng` là hai tiếng dính liền — `e rằng`");
    assert_eq!(&kq.chu[cx.pham_vi.clone()], "erằng");
}

#[test]
fn tat_tang_tieng_sai_thi_khong_xet() {
    let b = BoSoat::moi(
        TuyChon { am_tiet_sai: false, ..TuyChon::default() },
        Kieu::Cu,
        tu_dien(),
        de_nham::Bang::nap(""),
        typo::Bang::nap(""),
    );
    let kq = b.soat("Tình thuơng của mẹ");
    assert!(kq.cho_xet.is_empty(), "{:?}", kq.cho_xet);
}

#[test]
fn typo_mot_dap_an_la_bang_chung() {
    let b = bo_kieu(KieuCham::CaCau, "mặg => mặt\n");
    let mut kq = b.soat("Anh sợ mặg à");
    assert_eq!(kq.cho_xet.len(), 1, "{:?}", kq.cho_xet);
    assert_eq!(kq.cho_xet[0].bang_chung, BangChung::Typo);
    assert_eq!(kq.cho_xet[0].ung_vien[0], "mặt");
    assert_eq!(kq.cho_xet[0].ly_do, "`mặg` là typo hay gặp, bảng chỉ ghi đúng một cách sửa — `mặt`");
    b.quyet_khong_mo_hinh(&mut kq);
    assert_eq!(kq.chu, "Anh sợ mặt à");
}

#[test]
fn chia_manh_khi_manh_sau_mo_dau_bang_phu_am() {
    assert!(tach_manh("e rằng"));
    assert!(!tach_manh("phả ii"));
    assert!(!tach_manh("erằng"));
}

#[test]
fn tach_dinh_theo_thu_tu_vet_cat() {
    let td = TuDien::nap("a\nab\nb\nbc\nc\n", "");
    assert_eq!(td.tach_dinh("Abc"), vec!["a bc".to_string(), "ab c".to_string()]);
    assert!(td.ung_vien_co_that("ab c"));
    assert!(!td.ung_vien_co_that("ab d"));
}

#[test]
fn giu_phu_am_dau_dung_truoc_gia() {
    let td = TuDien::nap("mặc\nhắc\n", "");
    let rong: BangChu<()> = BangChu::new();
    let uv = vec![UngVien { chu: "Hắc".into(), gia: 3 }, UngVien { chu: "Mặc".into(), gia: 5 }];
    let (ds, bc) = xep_hang_ung_vien("Măc", uv, Vec::new(), 0, None, None, &rong, &rong, None, &td);
    assert_eq!(ds, vec!["Mặc".to_string(), "Hắc".to_string()]);
    assert_eq!(bc, BangChung::Khong);
}

#[test]
fn cach_tach_yeu_chi_re_khi_co_hai_dau_thanh() {
    let td = TuDien::nap("phải\nphả\nii\n", "");
    let rong: BangChu<()> = BangChu::new();
    let uv = || vec![UngVien { chu: "phải".into(), gia: 4 }];
    let (ds, _) = xep_hang_ung_vien("phảii", uv(), vec!["phả ii".to_string()], 1, None, None, &rong, &rong, None, &td);
    assert_eq!(ds, vec!["phải".to_string(), "phả ii".to_string()]);
    let (ds, _) = xep_hang_ung_vien("phảii", uv(), vec!["phả ii".to_string()], 2, None, None, &rong, &rong, None, &td);
    assert_eq!(ds, vec!["phả ii".to_string(), "phải".to_string()]);
}

#[test]
fn ung_vien_khong_co_that_bi_bo_khi_con_ung_vien_khac() {
    let td = TuDien::nap("thương\n", "");
    let rong: BangChu<()> = BangChu::new();
    let uv = vec![UngVien { chu: "thuông".into(), gia: 1 }, UngVien { chu: "thương".into(), gia: 2 }];
    let (ds, bc) = xep_hang_ung_vien("thuơng", uv, Vec::new(), 0, None, None, &rong, &rong, None, &td);
    assert_eq!(ds, vec!["thương".to_string()]);
    assert_eq!(bc, BangChung::DauPhu);
}
