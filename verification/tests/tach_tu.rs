use chinhta::tach_tu::{cat, dang_tu, DangTu};

#[test]
fn cat_dung_vi_tri() {
    let v = "Anh ấy nói: “không”.";
    let tu = cat(v);
    let chu: Vec<&str> = tu.iter().map(|t| t.chu).collect();
    assert_eq!(chu, ["Anh", "ấy", "nói", "không"]);
    for t in &tu {
        assert_eq!(&v[t.dau..t.cuoi], t.chu, "vị trí byte lệch");
    }
}

#[test]
fn gach_noi_la_ranh_gioi() {
    let chu: Vec<&str> = cat("ki-lô-mét").iter().map(|t| t.chu).collect();
    assert_eq!(chu, ["ki", "lô", "mét"]);
}

#[test]
fn phan_biet_dang_tu() {
    assert_eq!(dang_tu("không"), DangTu::TiengViet);
    assert_eq!(dang_tu("đi"), DangTu::TiengViet);
    assert_eq!(dang_tu("window"), DangTu::KhongDau);
    assert_eq!(dang_tu("khong"), DangTu::KhongDau);
    assert_eq!(dang_tu("USB"), DangTu::VietTat);
    assert_eq!(dang_tu("Dumbledore"), DangTu::KhongDau);
    assert_eq!(dang_tu("đ"), DangTu::KhongPhaiChu);
    assert_eq!(dang_tu("ngh"), DangTu::KhongPhaiChu);
}

#[test]
fn cat_chuoi_rong_va_so() {
    assert!(cat("").is_empty());
    assert!(cat("123 , ...").is_empty());
    let tu = cat("a1b");
    let chu: Vec<&str> = tu.iter().map(|t| t.chu).collect();
    assert_eq!(chu, ["a", "b"]);
    assert_eq!(dang_tu(""), DangTu::KhongPhaiChu);
    assert_eq!(dang_tu("A"), DangTu::KhongPhaiChu);
    assert_eq!(dang_tu("Ai"), DangTu::KhongDau);
    assert_eq!(dang_tu("B2"), DangTu::KhongPhaiChu);
}
