use chinhta::am_tiet::{bo_thanh_chuoi, ghep, hop_le, la_chu_viet, tach, AmTiet, HUYEN, SAC};
use chinhta::tach_tu::{dang_tu, DangTu};

#[test]
fn tach_roi_ghep_lai_khong_doi() {
    for tieng in [
        "không", "người", "được", "quyển", "nghiêng", "thuyền", "gì", "giá", "quả", "quý",
        "khuỷu", "rượu", "xoong", "huơ", "chuyện", "ngoằn", "tuyệt", "khoẻ",
        "gìn", "giếng", "giêng", "giày", "giấu", "giòi",
    ] {
        let at = tach(tieng).unwrap_or_else(|| panic!("không tách được: {tieng}"));
        let lai = ghep(&at, true);
        assert_eq!(bo_thanh_chuoi(&lai), bo_thanh_chuoi(tieng), "phần chữ đổi: {tieng} → {lai}");
    }
}

#[test]
fn nhan_nhung_van_de_bi_bo_quen() {
    for tieng in ["méc", "éc", "xéc", "nhếc", "híc", "nhích", "hừm", "ừm"] {
        assert!(hop_le(tieng), "vần của `{tieng}` không có trong bảng");
    }
}

#[test]
fn am_dau_qu_nuot_chu_u_cua_van() {
    for tieng in ["quýt", "quỳnh", "quýnh"] {
        assert!(hop_le(tieng), "`{tieng}` phải hợp lệ");
        let at = tach(tieng).unwrap();
        assert_eq!(ghep(&at, false), tieng, "ghép lại không ra chính nó");
    }
    assert!(!hop_le("quoan"));
}

#[test]
fn bat_duoc_tieng_sai_cau_tao() {
    assert!(!hop_le("thuơng"), "thuơng phải bị bắt");
    assert!(hop_le("thương"));
    assert!(!hop_le("khôngg"));
    assert!(!hop_le("nguơi"));
    assert!(!hop_le("bàt"), "vần khép không mang thanh huyền");
    assert!(!hop_le("kách"), "k không đứng trước a");
    assert!(!hop_le("nghành"), "ngh không đứng trước a");
    assert!(hop_le("ngành"));
}

#[test]
fn dat_dau_thanh_sau_qu_va_gi() {
    let at = tach("quy").unwrap();
    assert_eq!(ghep(&AmTiet { thanh: SAC, ..at }, false), "quý");
    let at = tach("gia").unwrap();
    assert_eq!(ghep(&AmTiet { thanh: SAC, ..at }, false), "giá");
}

#[test]
fn kieu_dat_dau_cu_va_moi() {
    let at = tach("hoa").unwrap();
    assert_eq!(ghep(&AmTiet { thanh: HUYEN, ..at.clone() }, false), "hòa");
    assert_eq!(ghep(&AmTiet { thanh: HUYEN, ..at }, true), "hoà");
    let at = tach("hoan").unwrap();
    assert_eq!(ghep(&AmTiet { thanh: HUYEN, ..at.clone() }, false), "hoàn");
    assert_eq!(ghep(&AmTiet { thanh: HUYEN, ..at }, true), "hoàn");
}

#[test]
fn giu_nguyen_kieu_viet_hoa() {
    assert_eq!(ghep(&tach("Người").unwrap(), true), "Người");
    assert_eq!(ghep(&tach("VIỆT").unwrap(), true), "VIỆT");
    assert_eq!(ghep(&tach("việt").unwrap(), true), "việt");
}

#[test]
fn chu_viet_gom_ca_nguyen_am_hoa_co_dau() {
    for c in ['a', 'Z', 'ự', 'đ', 'Đ', 'Ệ', 'Ừ', 'Ắ', 'Ơ'] {
        assert!(la_chu_viet(c), "{c}");
    }
    for c in ['-', '1', ' ', 'ß', 'Ω'] {
        assert!(!la_chu_viet(c), "{c}");
    }
}

#[test]
fn tieng_viet_hoa_toan_bo_la_viet_tat() {
    assert_eq!(dang_tu("VIỆT"), DangTu::VietTat);
    assert_eq!(dang_tu("Việt"), DangTu::TiengViet);
}
