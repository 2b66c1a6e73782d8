use std::ops::Range;
use chinhta::sua::{ap_dung, DoChac, Loai, SuaDoi};

fn sd(r: Range<usize>, goc: &str, moi: &str) -> SuaDoi {
    SuaDoi::moi(r, goc, moi, Loai::KhoangTrang, DoChac::Chac, "kiểm")
}

#[test]
fn ap_theo_thu_tu_bat_ky() {
    let goc = "một hai ba";
    let mut s = vec![sd(10..12, "ba", "BA"), sd(0..5, "một", "MỘT")];
    let (ra, n) = ap_dung(goc, &mut s);
    assert_eq!(ra, "MỘT hai BA");
    assert_eq!(n, 2);
}

#[test]
fn bo_qua_pham_vi_chong_nhau() {
    let goc = "abc";
    let mut s = vec![sd(0..2, "ab", "X"), sd(1..3, "bc", "Y")];
    let (ra, n) = ap_dung(goc, &mut s);
    assert_eq!(ra, "Xc");
    assert_eq!(n, 1);
}

#[test]
fn ap_dung_sap_lai_theo_vi_tri_va_bo_qua_phep_chong() {
    let goc = "abcdef";
    let mut s = vec![sd(4..6, "ef", "Z"), sd(0..2, "ab", "X"), sd(1..3, "bc", "Y")];
    let (ra, n) = ap_dung(goc, &mut s);
    assert_eq!(ra, "XcdZ");
    assert_eq!(n, 2);
    assert_eq!(s.len(), 3);
    assert_eq!(s[0].pham_vi, 0..2);
    assert_eq!(s[1].pham_vi, 1..3);
    assert_eq!(s[2].pham_vi, 4..6);
}

#[test]
fn khong_co_phep_sua_thi_giu_nguyen() {
    let mut s: Vec<SuaDoi> = Vec::new();
    let (ra, n) = ap_dung("nguyên văn", &mut s);
    assert_eq!(ra, "nguyên văn");
    assert_eq!(n, 0);
}

#[test]
fn co_doi_va_ten_loai() {
    assert!(sd(0..1, "a", "b").co_doi());
    assert!(!sd(0..1, "a", "a").co_doi());
    assert_eq!(Loai::DauThanh.ten(), "Dấu thanh");
    assert_eq!(Loai::KieuDau.ten(), "Kiểu đặt dấu");
}

#[test]
fn moi_thu_tu_dau_vao_cho_cung_ket_qua() {
    let goc = "abcdef";
    let tao = || vec![sd(4..6, "ef", "Z"), sd(0..2, "ab", "X"), sd(1..3, "bc", "Y")];
    let mut a = tao();
    let (ra_a, n_a) = ap_dung(goc, &mut a);
    let mut b = tao();
    b.reverse();
    let (ra_b, n_b) = ap_dung(goc, &mut b);
    let mut c = tao();
    c.swap(0, 1);
    let (ra_c, n_c) = ap_dung(goc, &mut c);
    assert_eq!((ra_a.as_str(), n_a), ("XcdZ", 2));
    assert_eq!((ra_b, n_b), (ra_a.clone(), n_a));
    assert_eq!((ra_c, n_c), (ra_a, n_a));
    assert!(n_a <= 3);
}

#[test]
fn phep_roi_nhau_thi_ap_het() {
    let mut ds = vec![sd(10..12, "ba", "BA"), sd(0..5, "một", "1"), sd(6..9, "hai", ""), sd(5..5, "", "+"), sd(12..12, "", "!")];
    let n = ds.len();
    let (chu, so) = ap_dung("một hai ba", &mut ds);
    assert_eq!(so, n);
    assert_eq!(chu, "1+  BA!");
}
