use chinhta::thuc_the::{giai_ma, giai_ma_co_ban_do, ma_hoa};

#[test]
fn giai_ma_cac_dang() {
    assert_eq!(giai_ma("a&amp;b"), "a&b");
    assert_eq!(giai_ma("&#273;i"), "đi");
    assert_eq!(giai_ma("&#x111;i"), "đi");
    assert_eq!(giai_ma("a&nbsp;b"), "a\u{00A0}b");
}

#[test]
fn dau_va_don_le_song_sot() {
    assert_eq!(giai_ma("Tom & Jerry"), "Tom & Jerry");
    assert_eq!(giai_ma("&khonghieu;"), "&khonghieu;");
}

#[test]
fn ma_hoa_roi_giai_ma_ra_chinh_no() {
    for v in ["Tom & Jerry", "a<b>c", "chữ Việt đầy đủ dấu", "&amp; sẵn"] {
        assert_eq!(giai_ma(&ma_hoa(v)), v);
    }
}

#[test]
fn ma_hoa_chi_dung_ba_ky_tu() {
    assert_eq!(ma_hoa("a&b<c>d\"e'đ"), "a&amp;b&lt;c&gt;d\"e'đ");
}

#[test]
fn thuc_the_so_ngoai_mien_va_qua_dai_de_nguyen() {
    assert_eq!(giai_ma("&#xD800;"), "&#xD800;");
    assert_eq!(giai_ma("&#x110000;"), "&#x110000;");
    assert_eq!(giai_ma("&#12345678901;"), "&#12345678901;");
    assert_eq!(giai_ma("&#X41;&quot;&apos;&lt;&gt;"), "A\"'<>");
}

#[test]
fn ban_do_tro_ve_vi_tri_goc() {
    let (g, bd) = giai_ma_co_ban_do("không");
    assert_eq!(g, "không");
    assert!(bd.is_none());
    let (g, bd) = giai_ma_co_ban_do("a&amp;b");
    assert_eq!(g, "a&b");
    assert_eq!(bd, Some(vec![0, 1, 6, 7]));
    let (g, bd) = giai_ma_co_ban_do("&#273;");
    assert_eq!(g, "đ");
    assert_eq!(bd, Some(vec![0, 0, 6]));
}
