use std::ops::Range;
use chinhta::quet::quet;

#[test]
fn noi_lai_nut_bi_the_inline_cat_vun() {
    let f = "<p>khô<i>ng</i> bao giờ</p>";
    let d = quet(f);
    assert_eq!(d.len(), 1);
    assert_eq!(d[0].chu, "không bao giờ");
}

#[test]
fn the_khoi_ngat_doan() {
    let d = quet("<p>một</p><p>hai</p>");
    assert_eq!(d.len(), 2);
    assert_eq!(d[0].chu, "một");
    assert_eq!(d[1].chu, "hai");
}

#[test]
fn bo_qua_script_va_style() {
    let d = quet("<style>p{color:red}</style><p>chữ</p><script>var a=1;</script>");
    assert_eq!(d.len(), 1);
    assert_eq!(d[0].chu, "chữ");
}

#[test]
fn vi_tri_ve_file_dung() {
    let f = "<p>một hai ba</p>";
    let d = quet(f);
    let doan = &d[0];
    let vt = doan.chu.find("hai").unwrap();
    let r = doan.ve_file(&(vt..vt + 3)).unwrap();
    assert_eq!(&f[r], "hai");
}

#[test]
fn vi_tri_ve_file_dung_khi_co_thuc_the() {
    let f = "<p>Tom &amp; Jerry hòa</p>";
    let d = quet(f);
    let doan = &d[0];
    assert_eq!(doan.chu, "Tom & Jerry hòa");
    let vt = doan.chu.find("hòa").unwrap();
    let r = doan.ve_file(&(vt..vt + "hòa".len())).unwrap();
    assert_eq!(&f[r], "hòa");
}

#[test]
fn thuoc_tinh_chua_dau_lon_hon() {
    let d = quet(r#"<p><img alt="a > b"/>chữ</p>"#);
    assert_eq!(d.len(), 1);
    assert_eq!(d[0].chu, "chữ");
}

#[test]
fn sua_vat_qua_hai_nut_thi_bo_qua() {
    let f = "<p>khô<i>ng</i></p>";
    let d = quet(f);
    assert!(d[0].ve_file(&(0.."không".len())).is_none());
}

fn va(file: &str, khoang: &[Range<usize>], moi: &str) -> String {
    let mut ra = String::new();
    let mut cuoi = 0usize;
    for (k, r) in khoang.iter().enumerate() {
        ra.push_str(&file[cuoi..r.start]);
        if k == 0 {
            ra.push_str(moi);
        }
        cuoi = r.end;
    }
    ra.push_str(&file[cuoi..]);
    ra
}

#[test]
fn va_duoc_chu_bi_the_dinh_dang_cat_doi() {
    let f = "<p>tình thuơ<i>ng</i> của mẹ</p>";
    let d = quet(f);
    let vt = d[0].chu.find("thuơng").unwrap();
    let khoang = d[0].ve_file_qua_the(f, &(vt..vt + "thuơng".len())).unwrap();
    assert_eq!(khoang.len(), 2, "phải phủ hai nút");
    assert_eq!(va(f, &khoang, "thương"), "<p>tình thương<i></i> của mẹ</p>");
}

#[test]
fn khong_va_qua_the_khong_phai_dinh_dang() {
    for f in [
        r#"<p>thuơ<img src="a.png"/>ng</p>"#,
        r#"<p>thuơ<a href="x">ng</a></p>"#,
        "<p>thuơ<br/>ng</p>",
    ] {
        let d = quet(f);
        let Some(doan) = d.first() else { continue };
        let Some(vt) = doan.chu.find("thuơng") else { continue };
        assert!(
            doan.ve_file_qua_the(f, &(vt..vt + "thuơng".len())).is_none(),
            "không được vá qua: {f}"
        );
    }
}

#[test]
fn va_duoc_qua_nhieu_the_lien_tiep() {
    let f = "<p>thu</b><i>ơng</i></p>";
    let d = quet(f);
    let vt = d[0].chu.find("thuơng").unwrap();
    let khoang = d[0].ve_file_qua_the(f, &(vt..vt + "thuơng".len())).unwrap();
    assert_eq!(va(f, &khoang, "thương"), "<p>thương</b><i></i></p>");
}

#[test]
fn chu_thich_cdata_va_khai_bao_bi_bo_qua() {
    let f = "<?xml version=\"1.0\"?><!DOCTYPE html><p>a<!-- chú -->b<![CDATA[c]]>d</p>";
    let d = quet(f);
    assert_eq!(d.len(), 1);
    assert_eq!(d[0].chu, "abd");
    assert_eq!(d[0].manh.len(), 3);
}

#[test]
fn doan_chi_khoang_trang_bi_bo() {
    let d = quet("<p>  \n </p><div>x</div>");
    assert_eq!(d.len(), 1);
    assert_eq!(d[0].chu, "x");
    let d = quet("<pre>giữ nguyên</pre>chữ tự do");
    assert_eq!(d.len(), 1);
    assert_eq!(d[0].chu, "chữ tự do");
}

#[test]
fn manh_ve_file_theo_ban_do() {
    let f = "<p>a&lt;b</p>";
    let d = quet(f);
    let m = &d[0].manh[0];
    assert_eq!(m.trong_doan, 0..3);
    assert_eq!(m.trong_file, 3..9);
    assert_eq!(m.ve_file(0), Some(3));
    assert_eq!(m.ve_file(1), Some(4));
    assert_eq!(m.ve_file(2), Some(8));
    assert_eq!(m.ve_file(3), Some(9));
    assert_eq!(m.ve_file(4), None);
}

#[test]
fn moi_manh_giai_ma_tu_dung_khuc_file() {
    let f = "<html><body><p>Tom &amp; Jerry <i>hòa</i> nhé</p><p>&#273;i <b>đâu</b></p><pre>x</pre></body></html>";
    let ds = quet(f);
    assert!(!ds.is_empty());
    for d in &ds {
        assert!(!d.manh.is_empty());
        assert_eq!(d.manh[0].trong_doan.start, 0);
        assert_eq!(d.manh.last().unwrap().trong_doan.end, d.chu.len());
        for w in d.manh.windows(2) {
            assert_eq!(w[0].trong_doan.end, w[1].trong_doan.start);
            assert!(w[0].trong_file.end <= w[1].trong_file.start);
        }
        for m in &d.manh {
            let tho = &f[m.trong_file.clone()];
            assert!(!tho.is_empty() && !tho.contains('<'));
            assert_eq!(chinhta::thuc_the::giai_ma(tho), &d.chu[m.trong_doan.clone()]);
        }
    }
}
