use chinhta::am_tiet;
use chinhta::ung_vien::{bo_ky_tu_lap, chi_them_mot_dau_phu, cung_chu_cai, sinh};

fn co(tieng: &str, mong: &str) -> bool {
    sinh(tieng).iter().any(|u| u.chu == mong)
}

fn dau_bang(tieng: &str) -> String {
    sinh(tieng).first().map(|u| u.chu.clone()).unwrap_or_default()
}

fn gia_cua(tieng: &str, uv: &str) -> Option<u32> {
    sinh(tieng).iter().find(|u| u.chu == uv).map(|u| u.gia)
}

#[test]
fn sua_loi_lac_dau_phu() {
    assert!(co("thuơng", "thương"), "{:?}", sinh("thuơng"));
    assert!(co("nguơi", "người"), "{:?}", sinh("nguơi"));
}

#[test]
fn sua_loi_giu_phim() {
    assert!(co("khôngg", "không"), "{:?}", sinh("khôngg"));
}

#[test]
fn bo_ky_tu_lap_re_hon_moi_cach_sua_khac() {
    for (sai, dung) in
        [("khôngg", "không"), ("phảii", "phải"), ("mộtt", "một"), ("nhưnng", "nhưng")]
    {
        assert_eq!(dau_bang(sai), dung, "{:?}", sinh(sai));
        assert_eq!(gia_cua(sai, dung), Some(1), "{:?}", sinh(sai));
    }
}

#[test]
fn bo_ca_dau_thanh_thi_dat_hon_chi_doi_dau_phu() {
    assert_eq!(gia_cua("ẩnh", "ảnh"), Some(3), "{:?}", sinh("ẩnh"));
    assert_eq!(gia_cua("ẩnh", "anh"), Some(6), "{:?}", sinh("ẩnh"));
}

#[test]
fn dau_thanh_khong_lam_hai_ky_tu_thanh_khac_nhau() {
    for x in ["xoong", "xoóng", "boong"] {
        let bo_bot = sinh(x).into_iter().filter(|u| u.chu.chars().count() < 5);
        assert!(
            !bo_bot.clone().any(|u| u.gia <= 1),
            "đã bỏ một chữ `o` của `{x}`: {:?}",
            bo_bot.collect::<Vec<_>>()
        );
    }
}

#[test]
fn u_va_u_moc_la_hai_chu_khac_nhau_nen_uu_khong_phai_lap() {
    assert!(bo_ky_tu_lap("hưu").is_empty());
    assert!(bo_ky_tu_lap("lưư").is_empty());
    assert!(co("lưư", "lưu"), "{:?}", sinh("lưư"));
    assert!(gia_cua("lưư", "lưu") < gia_cua("lưư", "lư"), "{:?}", sinh("lưư"));
}

#[test]
fn khong_de_ra_chuoi_khong_phai_tieng() {
    for tieng in ["thuơng", "khôngg", "nguơi", "xxyyzz"] {
        for u in sinh(tieng) {
            assert!(am_tiet::hop_le(&u.chu), "ứng viên không hợp lệ: {}", u.chu);
        }
    }
}

#[test]
fn chu_khong_dau_thi_uu_tien_ung_vien_khong_dau() {
    assert_eq!(dau_bang("đnag"), "đang");
    assert_eq!(dau_bang("khôgn"), "không");
}

#[test]
fn doi_phu_am_re_hon_doi_nguyen_am() {
    let uv = sinh("đing");
    let gia = |c: &str| uv.iter().find(|u| u.chu == c).map(|u| u.gia);
    assert!(gia("đinh") < gia("đang"), "{uv:?}");
}

#[test]
fn khong_bao_gio_doi_d_gach_thanh_d_thuong() {
    assert!(
        sinh("đang").iter().all(|u| !u.chu.starts_with('d')),
        "{:?}",
        sinh("đang").iter().filter(|u| u.chu.starts_with('d')).collect::<Vec<_>>()
    );
    assert!(sinh("dang").iter().any(|u| u.chu == "đang"));
}

#[test]
fn them_dau_phu_re_hon_dung_vao_dau_phu_da_co() {
    assert!(
        gia_cua("may", "mây") < gia_cua("mây", "may"),
        "{:?} / {:?}",
        gia_cua("may", "mây"),
        gia_cua("mây", "may")
    );
    assert!(gia_cua("duơng", "dương") < gia_cua("duơng", "duông"));
}

#[test]
fn a_trang_va_a_mu_la_hai_chu_khac_nhau_nen_khong_ai_hon_ai() {
    assert_eq!(gia_cua("măy", "may"), gia_cua("măy", "mây"), "{:?}", sinh("măy"));
    assert!(gia_cua("măy", "may").is_some(), "mất hẳn ứng viên: {:?}", sinh("măy"));
}

#[test]
fn khong_cat_mat_ung_vien_ma_tu_ghep_se_xac_nhan() {
    assert!(co("cẳu", "cửa"), "{:?}", sinh("cẳu"));
    assert!(co("cẳu", "của"), "{:?}", sinh("cẳu"));
}

#[test]
fn van_bo_duoc_dau_phu_khi_dau_roi_vao_chu_ben_canh() {
    for (sai, dung) in [("thưộc", "thuộc"), ("cưồng", "cuồng"), ("xưống", "xuống")] {
        assert!(co(sai, dung), "mất `{dung}`: {:?}", sinh(sai));
    }
}

#[test]
fn sinh_duoc_cho_van_khep() {
    assert!(co("hoat", "hoạt"), "{:?}", sinh("hoat"));
    assert!(co("biet", "biết"), "{:?}", sinh("biet"));
    assert!(co("mot", "một"), "{:?}", sinh("mot"));
}

#[test]
fn ung_vien_giu_kieu_viet_hoa() {
    assert!(sinh("Thuơng")
        .iter()
        .all(|u| u.chu.chars().next().is_some_and(|c| c.is_uppercase())));
    assert!(sinh("thuơng")
        .iter()
        .all(|u| u.chu.chars().next().is_some_and(|c| c.is_lowercase())));
}

#[test]
fn ung_vien_giu_thanh_goc_duoc_uu_tien() {
    let uv = sinh("thuơng");
    let vt = |c: &str| uv.iter().position(|u| u.chu == c);
    assert!(vt("thương") < vt("thường"), "{uv:?}");
}

#[test]
fn ung_vien_dau_bang_re_nhat_va_khong_qua_bon_muoi() {
    let uv = sinh("thuơng");
    assert!(uv.len() <= 40);
    for w in uv.windows(2) {
        assert!(w[0].gia <= w[1].gia);
    }
    assert!(uv.iter().all(|u| u.chu != "thuơng"));
    assert_eq!(uv[0].chu, "thương");
    assert_eq!(uv[0].gia, 2);
}

#[test]
fn cung_chu_cai_bo_qua_dau_nhung_giu_d_gach() {

    assert!(cung_chu_cai('ơ', 'O'));
    assert!(cung_chu_cai('ữ', 'u'));
    assert!(!cung_chu_cai('d', 'đ'));
    assert!(chi_them_mot_dau_phu(2));
    assert!(!chi_them_mot_dau_phu(3));
}
