use chinhta::dau_thanh::{dem, soat, DemKieu, Kieu};
use chinhta::sua::{ap_dung, Loai};

fn chay(v: &str, kieu: Kieu, nhat_quan: bool) -> String {
    let mut s = soat(v, kieu, nhat_quan);
    ap_dung(v, &mut s).0
}

#[test]
fn sua_dau_dat_sai_sau_qu_va_gi() {
    assert_eq!(chay("qúy", Kieu::Cu, false), "quý");
    assert_eq!(chay("gía", Kieu::Cu, false), "giá");
    assert_eq!(chay("qúa", Kieu::Moi, false), "quá");
}

#[test]
fn khong_dung_vao_van_da_dung() {
    for v in ["quý", "giá", "hòa", "hoàn", "người", "được", "khuỷu"] {
        assert_eq!(chay(v, Kieu::Cu, false), v, "đổi chữ vốn đúng: {v}");
    }
}

#[test]
fn hai_kieu_deu_de_yen_khi_khong_bat_nhat_quan() {
    assert_eq!(chay("hòa thuận", Kieu::Moi, false), "hòa thuận");
    assert_eq!(chay("hoà thuận", Kieu::Cu, false), "hoà thuận");
}

#[test]
fn keo_ve_kieu_la_loai_rieng_khong_phai_loi() {
    let s = soat("hoà thuận", Kieu::Cu, true);
    assert_eq!(s.len(), 1);
    assert_eq!(s[0].loai, Loai::KieuDau);
    let s = soat("qúy", Kieu::Cu, true);
    assert_eq!(s[0].loai, Loai::DauThanh);
}

#[test]
fn keo_ve_kieu_chinh_khi_bat_nhat_quan() {
    assert_eq!(chay("hoà thuận", Kieu::Cu, true), "hòa thuận");
    assert_eq!(chay("hòa thuận", Kieu::Moi, true), "hoà thuận");
    assert_eq!(chay("hoàn toàn", Kieu::Moi, true), "hoàn toàn");
}

#[test]
fn khong_dung_vao_cach_viet_hoa() {
    for v in ["THầy", "KHông", "CHúng", "NHưng"] {
        assert_eq!(chay(v, Kieu::Cu, true), v, "đã đổi cách viết hoa: {v}");
    }
}

#[test]
fn dem_phieu_theo_ca_sach() {
    let mut d = DemKieu::default();
    dem("hòa khòe thùy hoà", &mut d);
    assert_eq!(d.cu, 3);
    assert_eq!(d.moi, 1);
    assert_eq!(d.kieu_chinh(), Kieu::Cu);
}

#[test]
fn kieu_moi_thang_khi_nhieu_phieu_hon() {
    let mut d = DemKieu::default();
    dem("hoà khoẻ", &mut d);
    assert_eq!(d.cu, 0);
    assert_eq!(d.moi, 2);
    assert_eq!(d.kieu_chinh(), Kieu::Moi);
    let hoa = DemKieu { cu: 2, moi: 2 };
    assert_eq!(hoa.kieu_chinh(), Kieu::Cu);
}

#[test]
fn vi_tri_phep_sua_dung_byte() {
    let v = "rất qúy";
    let s = soat(v, Kieu::Cu, false);
    assert_eq!(s.len(), 1);
    assert_eq!(&v[s[0].pham_vi.clone()], "qúy");
    assert_eq!(s[0].goc, "qúy");
    assert_eq!(s[0].thay_bang, "quý");
}

#[test]
fn dem_cong_don_qua_cac_doan() {
    let (a, b) = ("hòa khòe", "thùy hoà");
    let mut tung = DemKieu::default();
    dem(a, &mut tung);
    dem(b, &mut tung);
    let mut ca = DemKieu::default();
    dem(&format!("{a} {b}"), &mut ca);
    assert_eq!((ca.cu, ca.moi), (tung.cu, tung.moi));
    assert_eq!((ca.cu, ca.moi), (3, 1));
}
