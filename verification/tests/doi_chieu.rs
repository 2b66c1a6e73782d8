use chinhta::doi_chieu::{so, Khac};

fn ap(cu: &str, k: &[Khac]) -> String {
    let mut ra = String::new();
    let mut cuoi = 0usize;
    for x in k {
        ra.push_str(&cu[cuoi..x.cu.start]);
        ra.push_str(&x.moi);
        cuoi = x.cu.end;
    }
    ra.push_str(&cu[cuoi..]);
    ra
}

#[test]
fn khong_doi_thi_khong_co_khoang_nao() {
    assert!(so("một hai ba", "một hai ba").is_empty());
}

#[test]
fn dung_lai_duoc_ban_moi() {
    let ca = [
        ("Anh ấy xử dụng máy", "Anh ấy sử dụng máy"),
        ("một   hai", "một hai"),
        ("nói , rồi đi .", "nói, rồi đi."),
        ("Tình thuơng của mẹ", "Tình thương của mẹ"),
        ("bỏ hết", ""),
        ("", "thêm mới"),
    ];
    for (cu, moi) in ca {
        let k = so(cu, moi);
        assert_eq!(ap(cu, &k), moi, "dựng lại sai: {cu:?} → {moi:?}");
    }
}

#[test]
fn khoang_va_bam_sat_cho_doi() {
    let cu = "Câu này rất dài và chỉ có một chỗ thuơng sai ở giữa mà thôi";
    let moi = "Câu này rất dài và chỉ có một chỗ thương sai ở giữa mà thôi";
    let k = so(cu, moi);
    assert_eq!(k.len(), 1);
    assert_eq!(&cu[k[0].cu.clone()], "thuơng");
    assert_eq!(k[0].moi, "thương");
}

#[test]
fn nhieu_cho_sua_ra_nhieu_khoang() {
    let cu = "Anh xử dụng nó , rồi thuơng tiếc";
    let moi = "Anh sử dụng nó, rồi thương tiếc";
    let k = so(cu, moi);
    assert!(k.len() >= 2, "gộp hết làm một: {k:?}");
    assert_eq!(ap(cu, &k), moi);
}

#[test]
fn khoang_luon_dung_ranh_gioi_ky_tu() {
    let cu = "chữ tiếng Việt thuơng đầy dấu";
    let moi = "chữ tiếng Việt thương đầy dấu";
    for k in so(cu, moi) {
        assert!(cu.is_char_boundary(k.cu.start) && cu.is_char_boundary(k.cu.end));
    }
}

#[test]
fn cac_khoang_tang_dan_va_khong_rong() {
    let cu = "một hai ba bốn";
    let moi = "một HAI ba BỐN năm";
    let k = so(cu, moi);
    assert_eq!(ap(cu, &k), moi);
    for w in k.windows(2) {
        assert!(w[0].cu.end <= w[1].cu.start);
    }
    for x in &k {
        assert!(!x.cu.is_empty() || !x.moi.is_empty());
    }
}
