use chinhta::tu_dien::TuDien;

const AM_TIET: &str = "không\nngười\nđược\nchúng\nquýt\nméc\nbêtông\nmicrô\npittông\nrađa\nnilông\ncafê\nta\nchừ\nlịch\nsử\nhọc\n";
const TU_GHEP: &str = "chúng ta\nlịch sử\nsử học\n\n";

fn td() -> TuDien {
    TuDien::nap(AM_TIET, TU_GHEP)
}

#[test]
fn nhan_tu_muon_ma_bang_van_bac_bo() {
    let d = td();
    for t in ["bêtông", "micrô", "pittông", "rađa", "nilông", "cafê"] {
        assert!(d.co_am_tiet(t), "từ điển thiếu `{t}`");
        assert!(!chinhta::am_tiet::hop_le(t), "`{t}` mà bảng vần lại nhận?");
    }
}

#[test]
fn nhan_tieng_thuong_gap() {
    let d = td();
    for t in ["không", "người", "được", "chúng", "quýt", "méc"] {
        assert!(d.co_am_tiet(t), "từ điển thiếu `{t}`");
    }
}

#[test]
fn khong_nhan_chuoi_bay() {
    let d = td();
    for t in ["thuơng", "khôngg", "xxyyzz", "chúg"] {
        assert!(!d.co_am_tiet(t), "từ điển nhận nhầm `{t}`");
    }
}

#[test]
fn tu_ghep_phan_biet_duoc_ung_vien() {
    let d = td();
    assert!(d.co_tu_ghep("chúng ta"));
    assert!(!d.co_tu_ghep("chừ ta"));
    assert_eq!(d.khop_hang_xom(None, "chúng", Some("ta")), 1);
    assert_eq!(d.khop_hang_xom(None, "chừ", Some("ta")), 0);
}

#[test]
fn khop_ca_hai_phia() {
    let d = td();
    let n = d.khop_hang_xom(Some("lịch"), "sử", Some("học"));
    assert!(n >= 1, "không khớp phía nào");
    assert_eq!(n, 2);
}

#[test]
fn nap_bo_dong_rong_va_dem_dung() {
    let d = td();
    assert_eq!(d.so_am_tiet(), 17);
    assert_eq!(d.so_tu_ghep(), 3);
    let lap = TuDien::nap("a\na\r\nb", "");
    assert_eq!(lap.so_am_tiet(), 2);
    assert!(lap.co_am_tiet("a"));
    assert!(lap.co_am_tiet("B"));
    assert!(!lap.co_am_tiet(""));
    let rong = TuDien::rong();
    assert_eq!(rong.so_am_tiet(), 0);
    assert_eq!(rong.so_tu_ghep(), 0);
}

#[test]
fn khong_phan_biet_hoa_thuong_khi_tra_am_tiet() {
    let d = td();
    assert!(d.co_am_tiet("Không"));
    assert!(d.co_am_tiet("NGƯỜI"));
    assert_eq!(d.khop_hang_xom(Some("Lịch"), "SỬ", None), 1);
}
