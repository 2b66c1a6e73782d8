use chinhta::de_nham::Bang;
use chinhta::sua::{ap_dung, DoChac, SuaDoi};

const BANG: &str = "# cặp dễ nhầm\n[LUON_SAI]\nxử dụng => sử dụng\ncâu truyện => câu chuyện\nbắt trước => bắt chước\nthái độ bàng quang => thái độ bàng quan\n\n[TUY_NGHIA]\ndành cho | giành cho\nchia xẻ | chia sẻ\n";

fn tu_sua(v: &str) -> String {
    let b = Bang::nap(BANG);
    let mut s: Vec<SuaDoi> = b.soat(v).into_iter().filter(|s| s.do_chac == DoChac::Chac).collect();
    ap_dung(v, &mut s).0
}

#[test]
fn sua_dang_luon_sai() {
    assert_eq!(tu_sua("Cách xử dụng máy"), "Cách sử dụng máy");
    assert_eq!(tu_sua("một câu truyện hay"), "một câu chuyện hay");
    assert_eq!(tu_sua("anh ta bắt trước tôi"), "anh ta bắt chước tôi");
}

#[test]
fn khong_tu_sua_dang_tuy_nghia() {
    assert_eq!(tu_sua("phần dành cho em"), "phần dành cho em");
    assert_eq!(tu_sua("chia xẻ nỗi buồn"), "chia xẻ nỗi buồn");
    let b = Bang::nap(BANG);
    assert!(b.soat("chia xẻ nỗi buồn").iter().any(|s| s.do_chac == DoChac::NgoVuc));
}

#[test]
fn cum_dai_thang_cum_ngan() {
    assert_eq!(tu_sua("thái độ bàng quang của anh"), "thái độ bàng quan của anh");
    assert_eq!(tu_sua("viêm bàng quang"), "viêm bàng quang");
}

#[test]
fn de_nham_giu_kieu_viet_hoa() {
    assert_eq!(tu_sua("Xử dụng thế nào?"), "Sử dụng thế nào?");
}

#[test]
fn dau_cau_xen_giua_thi_khong_phai_cum() {
    assert_eq!(tu_sua("anh xử, dụng cụ kia"), "anh xử, dụng cụ kia");
}

#[test]
fn nap_chia_hai_phan_va_sap_cum_dai_truoc() {
    let b = Bang::nap(BANG);
    assert_eq!(b.so_muc(), (4, 2));
    let s = b.soat("Chia xẻ nhé");
    assert_eq!(s.len(), 1);
    assert_eq!(s[0].thay_bang, "Chia sẻ");
    assert_eq!(s[0].ly_do, "`chia xẻ` và `chia sẻ` khác nghĩa — chọn theo câu");
    assert_eq!(s[0].pham_vi, 0.."Chia xẻ".len());
    let s = b.soat("xử dụng");
    assert_eq!(s[0].ly_do, "`xử dụng` không phải là từ");
    assert!(Bang::rong().soat("xử dụng").is_empty());
}
