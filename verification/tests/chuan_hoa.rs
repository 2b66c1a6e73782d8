use chinhta::chuan_hoa::{
    chon_nfc, dung_lai_nfc, la_khoang_trang_la, soat_dau_cau, soat_khoang_trang, soat_unicode, CaiDat,
};
use chinhta::sua::{ap_dung, DoChac, Loai};

fn chay(v: &str) -> String {
    let cd = CaiDat::default();
    let mut s = soat_unicode(v, &cd);
    let (v, _) = ap_dung(v, &mut s);
    let v = dung_lai_nfc(&v).unwrap_or(v);
    let mut s = soat_dau_cau(&v, &cd);
    let (v, _) = ap_dung(&v, &mut s);
    let mut s = soat_khoang_trang(&v, &cd);
    let (v, _) = ap_dung(&v, &mut s);
    v
}

#[test]
fn don_rac_vo_hinh() {
    assert_eq!(chay("khô\u{00AD}ng"), "không");
    assert_eq!(chay("a\u{200B}b"), "ab");
    assert_eq!(chay("a\u{00A0}b"), "a b");
}

#[test]
fn dung_lai_to_hop_nfc() {
    let roi = "vi\u{0065}\u{0302}\u{0301}t";
    assert_eq!(chay(roi), "viết");
}

#[test]
fn khoang_trang_quanh_dau_cau() {
    assert_eq!(chay("Anh ấy nói , rồi đi ."), "Anh ấy nói, rồi đi.");
    assert_eq!(chay("một,hai;ba"), "một, hai; ba");
    assert_eq!(chay("( trong ngoặc )"), "(trong ngoặc)");
    assert_eq!(chay("Xong.Rồi đi."), "Xong. Rồi đi.");
}

#[test]
fn khong_dung_vao_con_so() {
    assert_eq!(chay("Giá 1,5 triệu và 12.000 đồng lúc 10:30."), "Giá 1,5 triệu và 12.000 đồng lúc 10:30.");
    assert_eq!(chay("Xem TP.HCM và v.v. rồi thôi."), "Xem TP.HCM và v.v. rồi thôi.");
}

#[test]
fn gop_khoang_trang_lap() {
    assert_eq!(chay("một   hai"), "một hai");
    assert_eq!(chay("  đầu và cuối  "), "đầu và cuối");
}

#[test]
fn giu_nguyen_van_ban_da_sach() {
    for v in [
        "Anh ấy nói: “Tôi không biết.” Rồi bỏ đi.",
        "Chương 1. Ngày đầu tiên",
        "Giá 1,5 triệu (đã gồm thuế) — rẻ hơn 12.000 đồng.",
        "Thế à? Ừ! Đi thôi...",
    ] {
        assert_eq!(chay(v), v, "đã đổi văn bản vốn đúng");
    }
}

#[test]
fn ly_do_ghi_ma_ky_tu_theo_hex() {
    let cd = CaiDat::default();
    let s = soat_unicode("a\u{00AD}b\u{00A0}c", &cd);
    assert_eq!(s.len(), 2);
    assert_eq!(s[0].pham_vi, 1..3);
    assert_eq!(s[0].ly_do, "bỏ ký tự vô hình U+00AD");
    assert_eq!(s[0].thay_bang, "");
    assert_eq!(s[1].pham_vi, 4..6);
    assert_eq!(s[1].ly_do, "U+00A0 thành khoảng trắng thường");
    assert_eq!(s[1].thay_bang, " ");
    assert_eq!(s[1].loai, Loai::Unicode);
    let s = soat_unicode("x\u{FEFF}", &cd);
    assert_eq!(s[0].ly_do, "bỏ ký tự vô hình U+FEFF");
}

#[test]
fn tat_cai_dat_thi_khong_co_phep_nao() {
    let cd = CaiDat {
        unicode: false,
        khoang_trang: false,
        dau_cau: false,
        gom_dau_cham: true,
        dung_ky_tu_ba_cham: true,
        nhay_cong: false,
    };
    assert!(soat_unicode("a\u{200B}b", &cd).is_empty());
    assert!(soat_khoang_trang("a   b", &cd).is_empty());
    assert!(soat_dau_cau("a , b....", &cd).is_empty());
}

#[test]
fn gop_khoang_trang_ghi_so_luong() {
    let cd = CaiDat::default();
    let s = soat_khoang_trang("một   hai", &cd);
    assert_eq!(s.len(), 1);
    assert_eq!(s[0].pham_vi, 5..8);
    assert_eq!(s[0].ly_do, "gộp 3 khoảng trắng");
    let s = soat_khoang_trang("   a  ", &cd);
    assert_eq!(s.len(), 2);
    assert_eq!(s[0].pham_vi, 0..3);
    assert_eq!(s[0].ly_do, "bỏ khoảng trắng đầu đoạn");
    assert_eq!(s[1].pham_vi, 4..6);
    assert_eq!(s[1].ly_do, "bỏ khoảng trắng cuối đoạn");
    let s = soat_khoang_trang("    ", &cd);
    assert_eq!(s.len(), 1);
    assert_eq!(s[0].pham_vi, 0..4);
}

#[test]
fn gom_dau_cham_va_doi_ba_cham() {
    let cd = CaiDat { dung_ky_tu_ba_cham: true, ..CaiDat::default() };
    let s = soat_dau_cau("Chờ..... Rồi... thôi..", &cd);
    let gom: Vec<_> = s.iter().filter(|x| x.thay_bang == "...").collect();
    assert_eq!(gom.len(), 1);
    assert_eq!(gom[0].pham_vi, 5..10);
    assert_eq!(gom[0].ly_do, "gộp 5 dấu chấm về ba");
    let doi: Vec<_> = s.iter().filter(|x| x.thay_bang == "…").collect();
    assert_eq!(doi.len(), 1);
    assert_eq!(doi[0].pham_vi, 16..19);
    let mut s = s;
    let (ra, _) = ap_dung("Chờ..... Rồi... thôi..", &mut s);
    assert_eq!(ra, "Chờ... Rồi… thôi..");
}

#[test]
fn hai_cau_dinh_nhau_la_kha_chac() {
    let cd = CaiDat::default();
    let s = soat_dau_cau("xong.Rồi", &cd);
    assert_eq!(s.len(), 1);
    assert_eq!(s[0].do_chac, DoChac::KhaChac);
    assert_eq!(s[0].thay_bang, ". ");
    assert_eq!(s[0].ly_do, "thêm khoảng trắng sau dấu `.` giữa hai câu");
}

#[test]
fn nfc_tra_none_khi_da_chuan() {
    assert!(dung_lai_nfc("viết").is_none());
    assert_eq!(dung_lai_nfc("vi\u{0065}\u{0302}\u{0301}t"), Some("viết".to_string()));
    assert!(chon_nfc("abc", "abc".to_string()).is_none());
    assert_eq!(chon_nfc("abc", "abd".to_string()), Some("abd".to_string()));
}

#[test]
fn khoang_trang_la_gom_nhung_ky_tu_nao() {
    for c in ['\u{00A0}', '\u{2002}', '\u{2005}', '\u{200A}', '\u{202F}', '\u{205F}', '\u{3000}', '\t'] {
        assert!(la_khoang_trang_la(c));
    }
    for c in [' ', 'a', '\u{2001}', '\u{200B}', '\n'] {
        assert!(!la_khoang_trang_la(c));
    }
}

#[test]
fn dung_lai_nfc_lan_hai_khong_doi() {
    let x = dung_lai_nfc("Vi\u{0065}\u{0302}\u{0323}t Nam").expect("chuỗi chưa ở dạng NFC");
    assert_eq!(x, "Việt Nam");
    assert!(dung_lai_nfc(&x).is_none());
}

#[test]
fn khoang_trang_ap_het_va_khong_con_trang_doi() {
    let cd = CaiDat::default();
    for v in ["  Trời   mưa ,  rồi    tạnh.  ", "a  b", "   ", " x ", "không có gì", "hai  ", "  đầu"] {
        let mut ds = soat_khoang_trang(v, &cd);
        let n = ds.len();
        let (chu, so) = ap_dung(v, &mut ds);
        assert_eq!(so, n, "{v:?}");
        assert!(!chu.contains("  "), "{v:?} -> {chu:?}");
        assert_eq!(chu.replace(' ', ""), v.replace(' ', ""), "{v:?}");
        if chu.chars().any(|c| c != ' ') {
            assert!(!chu.starts_with(' ') && !chu.ends_with(' '), "{v:?} -> {chu:?}");
        }
    }
}

#[test]
fn dau_cau_chi_bo_hay_them_dau_cach() {
    let cd = CaiDat::default();
    let v = "Trời mưa , rồi tạnh.Anh đi ( ra ) ;thế:là xong !Hết";
    let ds = soat_dau_cau(v, &cd);
    assert!(ds.len() >= 5, "{ds:?}");
    for s in &ds {
        assert_eq!(s.pham_vi.end, s.pham_vi.start + 1);
        let c = &v[s.pham_vi.clone()];
        assert_eq!(c, s.goc);
        if c == " " {
            assert_eq!(s.thay_bang, "");
        } else {
            assert!([",", ";", ":", ".", "!", "?"].contains(&c), "{s:?}");
            assert_eq!(s.thay_bang, format!("{c} "));
        }
    }
}
