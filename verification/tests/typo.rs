use chinhta::typo::Bang;

const BANG: &str = "# typo hay gặp\nkhôgn => không\nmăt => mắt | mặt | mật\n\nkhông có mũi tên\nrỗng =>  | \nKhôgn => không\n";

#[test]
fn muc_mot_dap_an_va_muc_nhieu_dap_an() {
    let b = Bang::nap(BANG);
    assert_eq!(b.tra("khôgn"), Some(["không".to_string()].as_slice()));
    let dap = b.tra("măt").expect("thiếu mục `măt`");
    assert!(dap.len() > 1, "{dap:?}");
    assert!(dap.contains(&"mắt".to_string()) && dap.contains(&"mặt".to_string()), "{dap:?}");
}

#[test]
fn khong_phan_biet_hoa_thuong() {
    let b = Bang::nap(BANG);
    assert!(b.tra("Khôgn").is_some());
}

#[test]
fn bo_dong_chu_thich_dong_hong_va_dap_an_rong() {
    let b = Bang::nap(BANG);
    assert_eq!(b.so_muc(), 2);
    assert!(b.tra("rỗng").is_none());
    assert!(b.tra("không có mũi tên").is_none());
    assert_eq!(b.tra("măt").unwrap(), ["mắt", "mặt", "mật"]);
    assert_eq!(Bang::rong().so_muc(), 0);
}
