use chinhta::bao_cao::{chu, html, mot_dong, so_ngo_vuc};
use chinhta::dau_thanh::{DemKieu, Kieu};
use chinhta::soat::{BangChung, ChoXet};
use chinhta::sua::{DoChac, Loai, SuaDoi};
use chinhta::xu_ly::{so_loi_dang_ke, ten_ra, KetQuaSach};

fn sua(goc: &str, moi: &str, loai: Loai, do_chac: DoChac, ly_do: &str) -> SuaDoi {
    SuaDoi::moi(0..goc.len(), goc, moi, loai, do_chac, ly_do)
}

fn ngo(goc: &str, uv: &[&str]) -> ChoXet {
    ChoXet {
        pham_vi: 0..goc.len(),
        goc: goc.to_string(),
        ung_vien: uv.iter().map(|s| s.to_string()).collect(),
        loai: Loai::AmTietSai,
        ly_do: String::new(),
        bang_chung: BangChung::Khong,
    }
}

fn mau() -> KetQuaSach {
    let mut kq = KetQuaSach::default();
    kq.nhan_de = Some("Truyện <A&B>".to_string());
    kq.so_file = 2;
    kq.so_doan = 5;
    kq.so_chu = 120;
    kq.da_sua = vec![
        sua("xử dụng", "sử dụng", Loai::DeNham, DoChac::Chac, "luôn sai"),
        sua("  ", " ", Loai::KhoangTrang, DoChac::Chac, "gộp khoảng trắng"),
        sua("xử dụng", "sử dụng", Loai::DeNham, DoChac::Chac, "lần hai"),
        sua("nhưmg", "nhưng", Loai::AmTietSai, DoChac::NgoVuc, "mô hình"),
        sua("câu truyện", "câu chuyện", Loai::DeNham, DoChac::Chac, "luôn sai"),
    ];
    kq.chua_sua = vec![ngo("thuơng", &["thương", "thường"]), ngo("thuơng", &["thương", "thường"])];
    kq.dem_kieu = DemKieu { cu: 10, moi: 1 };
    kq
}

#[test]
fn dem_loi_dang_ke_va_ngo_vuc() {
    let kq = mau();
    assert_eq!(so_loi_dang_ke(&kq), 4);
    assert_eq!(so_ngo_vuc(&kq), 1);
}

#[test]
fn dem_theo_loai_xep_theo_ten() {
    let kq = mau();
    let m = kq.dem_theo_loai();
    assert_eq!(m, vec![("Dễ nhầm", 3), ("Khoảng trắng", 1), ("Tiếng sai", 1)]);
}

#[test]
fn mot_dong_cho_thanh_trang_thai() {
    let kq = mau();
    assert_eq!(mot_dong(&kq), "Đã sửa 5 chỗ (4 lỗi chữ nghĩa), 2 chỗ để ngỏ trên 5 đoạn.");
    let kq = KetQuaSach::default();
    assert_eq!(mot_dong(&kq), "Đã sửa 0 chỗ (0 lỗi chữ nghĩa) trên 0 đoạn.");
}

#[test]
fn ban_chu_thuan_gom_va_dem() {
    let kq = mau();
    let s = chu(&kq);
    let mong = "Truyện <A&B>\n2 file, 5 đoạn, 120 chữ\n5 phép sửa (4 lỗi chữ nghĩa), 2 chỗ ngờ chưa sửa\n\n\
── Dễ nhầm (3 chỗ)\n   xử␣dụng → sử␣dụng   ×2\n   câu␣truyện → câu␣chuyện   ×1\n\n\
── Khoảng trắng (1 chỗ)\n   ␣␣ → ␣   ×1\n\n\
── Tiếng sai (1 chỗ)\n   nhưmg → nhưng   ×1\n\n\
── Chỗ ngờ, chưa sửa (2)\n   thuơng  →?  thương, thường\n   thuơng  →?  thương, thường\n";
    assert_eq!(s, mong);
}

#[test]
fn ban_chu_thuan_khi_khong_co_gi() {
    let kq = KetQuaSach::default();
    assert_eq!(chu(&kq), "(không rõ nhan đề)\n0 file, 0 đoạn, 0 chữ\n0 phép sửa (0 lỗi chữ nghĩa), 0 chỗ ngờ chưa sửa\n\n");
}

#[test]
fn hai_ve_nhin_giong_nhau_thi_hien_ma() {
    let mut kq = KetQuaSach::default();
    kq.da_sua = vec![sua("e\u{0302}\u{0301}", "ế", Loai::Unicode, DoChac::Chac, "NFC")];
    let s = chu(&kq);
    assert!(s.contains("e\u{0302}\u{0301} ⟨U+0065 U+0302 U+0301⟩ → ế ⟨U+1EBF⟩   ×1"), "{s}");
    let mut kq = KetQuaSach::default();
    kq.da_sua = vec![sua("a\u{200B}b", "ab", Loai::Unicode, DoChac::Chac, "vô hình")];
    let s = chu(&kq);
    assert!(s.contains("a⟨U+200B⟩b → ab   ×1"), "{s}");
}

#[test]
fn bao_cao_html_thoat_va_gom() {
    let kq = mau();
    let h = html(&kq);
    assert!(h.starts_with("<!doctype html><html lang=\"vi\">"));
    assert!(h.ends_with("</body></html>"));
    assert!(h.contains("<h1>Truyện &lt;A&amp;B&gt;</h1>"));
    assert!(h.contains("Báo cáo sửa chính tả — 2 file nội dung, 5 đoạn, 120 chữ.</p>"));
    assert!(h.contains("<div class=\"o\"><b>5</b><span>phép sửa</span></div>"));
    assert!(h.contains("<div class=\"o\"><b>4</b><span>lỗi chữ nghĩa</span></div>"));
    assert!(h.contains("<div class=\"o\"><b>2</b><span>chỗ ngờ, chưa sửa</span></div>"));
    assert!(h.contains("<div class=\"o\"><b>cũ</b><span>kiểu đặt dấu</span></div>"));
    assert!(h.contains("Chạy không có mô hình ngôn ngữ."));
    assert!(!h.contains("không nhất quán kiểu đặt dấu"));
    assert!(h.contains("<h2>Dễ nhầm <span class=\"ghi\">— 3 chỗ</span></h2>"));
    let a = h.find("<code class=\"cu\">xử␣dụng</code>").unwrap();
    let b = h.find("<code class=\"cu\">câu␣truyện</code>").unwrap();
    assert!(a < b);
    assert!(h.contains("<td class=\"ghi\">luôn sai</td><td class=\"n\">2</td>"));
    assert!(h.contains("<tr><td><code class=\"cu\">thuơng</code></td><td class=\"ghi\">thương, thường</td><td class=\"n\">2</td></tr>"));
}

#[test]
fn bao_cao_html_canh_bao() {
    let mut kq = KetQuaSach::default();
    kq.co_mo_hinh = true;
    kq.vuong_the = 3;
    kq.dem_kieu = DemKieu { cu: 7, moi: 3 };
    kq.kieu_dau = Kieu::Moi;
    let h = html(&kq);
    assert!(!h.contains("Chạy không có mô hình ngôn ngữ."));
    assert!(h.contains("<div class=\"canh\"><b>3 chỗ tìm ra nhưng không sửa được</b>"));
    assert!(h.contains("— 7 chỗ\n            kiểu cũ (<code>hòa</code>) và 3 chỗ kiểu mới"));
    assert!(h.contains("<b>mới</b><span>kiểu đặt dấu</span>"));
    assert!(h.contains("<h2>Đã sửa</h2><p class=\"ghi\">Không có gì để sửa.</p>"));
    assert!(h.contains("<h2>Chỗ ngờ, chưa sửa</h2><p class=\"ghi\">Không còn chỗ nào để ngỏ.</p>"));
    // Đúng một phần năm thì chưa tính là không nhất quán.
    kq.dem_kieu = DemKieu { cu: 4, moi: 1 };
    assert!(!html(&kq).contains("không nhất quán kiểu đặt dấu"));
}

#[test]
fn ten_file_ra() {
    assert_eq!(ten_ra("/sach/abc.epub"), "/sach/abc (đã sửa).epub");
    assert_eq!(ten_ra("abc"), "abc (đã sửa).epub");
    assert_eq!(ten_ra("x/truyen.EPUB"), "x/truyen (đã sửa).EPUB");
}
