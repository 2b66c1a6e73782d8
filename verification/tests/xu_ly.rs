use chinhta::dau_thanh::Kieu;
use chinhta::de_nham;
use chinhta::quet::quet;
use chinhta::soat::{BoSoat, TuyChon};
use chinhta::tu_dien::TuDien;
use chinhta::typo;
use chinhta::xu_ly::{ghi_doan, va_file, va_hop_le, DemSach, KetQuaSach};

fn bo() -> BoSoat {
    BoSoat::moi(
        TuyChon::default(),
        Kieu::Cu,
        TuDien::rong(),
        de_nham::Bang::nap("[LUON_SAI]\nxử dụng => sử dụng\n"),
        typo::Bang::nap(""),
    )
}

fn sua_file(file: &str) -> (String, KetQuaSach) {
    let mut kq = KetQuaSach::default();
    let mut va = Vec::new();
    let b = bo();
    for d in quet(file) {
        assert!(d.hop_le());
        let mut r = b.soat(&d.chu);
        b.quyet_khong_mo_hinh(&mut r);
        ghi_doan(&mut kq, &d, file, r, &mut va);
    }
    assert!(va_hop_le(file, &va));
    let (moi, vuong) = va_file(file, va);
    kq.vuong_the += vuong;
    (moi, kq)
}

#[test]
fn va_lai_dung_byte_da_sua() {
    let file = "<html><body><p>Anh ấy xử dụng máy tính , rồi đi.</p><p>Sạch sẽ.</p></body></html>";
    let (moi, kq) = sua_file(file);
    assert_eq!(moi, "<html><body><p>Anh ấy sử dụng máy tính, rồi đi.</p><p>Sạch sẽ.</p></body></html>");
    assert_eq!(kq.so_doan, 2);
    assert_eq!(kq.so_chu, "Anh ấy xử dụng máy tính , rồi đi.".chars().count() + "Sạch sẽ.".chars().count());
    assert_eq!(kq.da_sua.len(), 2);
    assert_eq!(kq.vuong_the, 0);
}

#[test]
fn file_khong_sua_thi_giu_nguyen() {
    let file = "<p>Trời &amp; đất.</p>";
    let (moi, kq) = sua_file(file);
    assert_eq!(moi, file);
    assert!(kq.da_sua.is_empty());
}

#[test]
fn va_chong_nhau_thi_bo_va_ma_hoa_thuc_the() {
    let va = vec![(0..3, "X".to_string()), (1..2, "Y".to_string()), (5..5, "<".to_string())];
    assert!(va_hop_le("abcdefg", &va));
    let (moi, bo_qua) = va_file("abcdefg", va);
    assert_eq!(moi, "Xde&lt;fg");
    assert_eq!(bo_qua, 1);
}

#[test]
fn va_cat_giua_ky_tu_thi_khong_hop_le() {
    assert!(!va_hop_le("ấy", &vec![(1..3, String::new())]));
    assert!(!va_hop_le("ab", &vec![(1..5, String::new())]));
    assert!(va_hop_le("ấy", &vec![(0..3, String::new())]));
}

#[test]
fn luot_mot_dem_ten_rieng_va_kieu_dau() {
    let td = TuDien::nap("tôi\nđến\nhồng\nchơi\n", "");
    let mut dem = DemSach::moi();
    for _ in 0..3 {
        assert!(dem.them_doan("Tôi đến Hồng Kông chơi hoà.", &td));
    }
    let (kieu, ten, cum, tu) = dem.chot();
    assert_eq!(kieu.moi, 3);
    assert_eq!(kieu.cu, 0);
    assert!(ten.contains("kông"));
    assert!(!ten.contains("hồng"));
    assert!(tu.contains("hoà"));
    assert!(cum.is_empty() || !cum.contains("tôi đến"));
}

#[test]
fn khong_co_cho_va_thi_file_giu_nguyen() {
    let f = "<p>Sạch &amp; đẹp.</p>";
    let (moi, bo_qua) = va_file(f, Vec::new());
    assert_eq!(moi, f);
    assert_eq!(bo_qua, 0);
}

#[test]
fn luot_mot_dem_ca_file_sau_khi_dung_lai_nfc() {
    let td = TuDien::nap("tôi\nđến\nchơi\n", "");
    let file = "<p>Tôi đến Huye\u{0302}\u{0300}n chơi.</p><p>Tôi đến Huyền chơi.</p><p>Tôi đến Huyền chơi.</p>";
    let mut dem = DemSach::moi();
    assert_eq!(dem.them_file(file, &td), Some(3));
    let (_, ten, _, _) = dem.chot();
    // Chữ gõ rời được dựng lại trước khi đếm nên ba lần gặp là một tên.
    assert!(ten.contains("huyền"));
    assert_eq!(ten.len(), 1);
}
