use chinhta::bang_chu::BangChu;
use chinhta::soat::{
    chot_cum_ten_rieng, chot_ten_rieng, chot_tu_dung, gom_cum_ten_rieng, gom_ten_rieng, gom_tu_dung, giu_phu_am_dau,
    lui_cau, nhan_theo, tien_cau, BangChung, DemCum,
};
use chinhta::sua::Loai;
use chinhta::tu_dien::TuDien;

#[test]
fn giu_phu_am_dau_dung_tren_ca_hai_bang_tra() {
    assert!(giu_phu_am_dau("Măc", "Mặc"));
    assert!(!giu_phu_am_dau("Măc", "Hắc"));
    assert!(giu_phu_am_dau("clại", "lại"));
    assert!(giu_phu_am_dau("ớc", "ước"));
    assert!(giu_phu_am_dau("Kông", "Không"));
    assert!(giu_phu_am_dau("uơng", "ương"));
    assert!(!giu_phu_am_dau("dang", "đang"));
    assert!(!giu_phu_am_dau("duợc", "được"));
    assert!(giu_phu_am_dau("duợc", "dược"));
    assert!(giu_phu_am_dau("Yyên", "Uyên"));
    assert!(!giu_phu_am_dau("ớc", "cố"));
}

#[test]
fn con_so_khong_bi_coi_la_het_cau() {
    let s = "Hắn trả 12.000 đồng cho chỗ ấy. Rồi đi.";
    let vt = s.find("đồng").unwrap();
    assert_eq!(lui_cau(s, vt, 1), 0, "cắt vào giữa con số");
}

#[test]
fn cham_roi_xuong_dong_chi_la_mot_ranh_gioi() {
    let s = "Câu một. Câu hai.\nCâu ba.";
    let vt = s.find("ba").unwrap();
    assert_eq!(lui_cau(s, vt, 2), s.find("Câu hai").unwrap(), "{:?}", &s[..vt]);
    assert_eq!(tien_cau(s, s.find("một").unwrap(), 2), s.find('\n').unwrap());
}

#[test]
fn dau_ngoac_kep_dong_thuoc_ve_cau_truoc() {
    let s = "Hắn nói: “Tôi không biết.” Rồi bỏ đi, chẳng ngoái lại. Hết.";
    let vt = s.find("chẳng").unwrap();
    let dau = lui_cau(s, vt, 1);
    assert!(s[dau..].starts_with("Rồi bỏ đi"), "{:?}", &s[dau..]);
    let cuoi = tien_cau(s, s.find("Tôi").unwrap(), 1);
    assert_eq!(&s[..cuoi], "Hắn nói: “Tôi không biết.”");
}

#[test]
fn chu_hoa_dau_cau_khong_phai_ten_rieng() {
    let td = TuDien::rong();
    let mut dem = BangChu::new();
    for _ in 0..5 {
        gom_ten_rieng("Chẵng ai biết. Chẵng ai hay.", &td, &mut dem);
    }
    assert!(chot_ten_rieng(dem).is_empty());
}

#[test]
fn ten_rieng_giua_cau_lap_lai_thi_duoc_giu() {
    let td = TuDien::nap("hồng\n", "");
    let mut dem = BangChu::new();
    for cau in [
        "Tôi đến Hồng Kông chơi.",
        "Ở Hồng Kông có nhiều người.",
        "Chuyến bay tới Hồng Kông bị hoãn.",
    ] {
        gom_ten_rieng(cau, &td, &mut dem);
    }
    let ten = chot_ten_rieng(dem);
    assert!(ten.contains("kông"));
    assert!(!ten.contains("hồng"));
    assert_eq!(ten.len(), 1);
}

#[test]
fn von_tu_dem_tieng_viet_tu_ba_lan() {
    let mut dem = BangChu::new();
    gom_tu_dung("đeo đeo Đeo window đêu", &mut dem);
    let tu = chot_tu_dung(dem);
    assert!(tu.contains("đeo"));
    assert!(!tu.contains("đêu"));
    assert!(!tu.contains("window"));
}

#[test]
fn cum_ten_rieng_can_ba_lan_va_giua_cau() {
    let td = TuDien::nap("hỏa\ndương\ntộc\nđám\ncao\ntầng\n", "cao tầng\n");
    let mut dem = DemCum::default();
    for _ in 0..3 {
        gom_cum_ten_rieng("Đám Cao Tầng Hỏa Dương Tộc không dám tới.", &td, &mut dem);
    }
    assert!(dem.so_cum() >= 2);
    let cum = chot_cum_ten_rieng(dem);
    assert!(cum.contains("hỏa dương"));
    assert!(cum.contains("dương tộc"));
    assert!(!cum.contains("cao tầng"));
    assert!(!cum.contains("đám cao"));
}

#[test]
fn bang_chung_va_nhan() {
    assert_eq!(BangChung::Khong.mo_ta(), None);
    assert_eq!(BangChung::TuGhep.mo_ta(), Some("từ ghép trong từ điển"));
    assert_eq!(BangChung::default(), BangChung::Khong);
    assert_eq!(nhan_theo(Loai::AmTietSai, "e rằng"), Loai::DinhChu);
    assert_eq!(nhan_theo(Loai::DinhChu, "rằng"), Loai::AmTietSai);
    assert_eq!(nhan_theo(Loai::DeNham, "e rằng"), Loai::DeNham);
}
