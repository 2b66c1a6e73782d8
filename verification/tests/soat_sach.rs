use chinhta::de_nham;
use chinhta::sach::{ghi_moi, Epub, Muc};
use chinhta::soat::TuyChon;
use chinhta::soat_sach::soat_sach;
use chinhta::sua::Loai;
use chinhta::tu_dien::TuDien;
use chinhta::typo;
use chinhta::xu_ly::KetQuaSach;

const CONTAINER: &str = r#"<?xml version="1.0"?>
<container version="1.0" xmlns="urn:oasis:names:tc:opendocument:xmlns:container">
<rootfiles><rootfile full-path="OEBPS/content.opf" media-type="application/oebps-package+xml"/></rootfiles>
</container>"#;

const OPF: &str = r#"<?xml version="1.0" encoding="utf-8"?>
<package xmlns="http://www.idpf.org/2007/opf" version="3.0" unique-identifier="id">
<metadata xmlns:dc="http://purl.org/dc/elements/1.1/">
<dc:title>Sách thử nghiệm</dc:title><dc:identifier id="id">thu-nghiem</dc:identifier>
<dc:language>vi</dc:language></metadata>
<manifest><item id="c1" href="ch1.xhtml" media-type="application/xhtml+xml"/></manifest>
<spine><itemref idref="c1"/></spine></package>"#;

const AM_TIET: &str = "tình\nthương\nthường\nthưởng\ncủa\nmẹ\nthật\nlớn\nừ\nà\ntrời\nmưa\nrồi\ntạnh\nanh\nđi\nra\n";
const TU_GHEP: &str = "tình thương\n";

fn chuong() -> String {
    let mut s = String::from(
        r#"<?xml version="1.0" encoding="utf-8"?>
<html xmlns="http://www.w3.org/1999/xhtml"><head><title>Chương một</title>
<style>p { margin: 0 }</style></head><body>
"#,
    );
    s.push_str("<p>Anh ấy xử dụng máy tính để làm việc.</p>\n");
    s.push_str("<p>Một món quà rất qúy giá.</p>\n");
    s.push_str("<p>Trời mưa , rồi   tạnh.Anh đi ra.</p>\n");
    s.push_str("<p>Trời khô\u{00AD}ng mưa nữa.</p>\n");
    s.push_str("<p>Tình thuơng của mẹ thật lớn.</p>\n");
    s.push_str("<p>Ừ thuơng à.</p>\n");
    s.push_str("<p>Giá 1,5 triệu và 12.000 đồng lúc 10:30.</p>\n");
    s.push_str("<p>Giáo sư Dumbledore nhìn Voldemort &amp; bỏ đi.</p>\n");
    s.push_str("<p>Trời khô<i>ng</i> bao giờ đổi.</p>\n");
    s.push_str("<p>Xin <i>chào </i> bạn nhé.</p>\n");
    s.push_str("<pre>xử dụng</pre>\n");
    s.push_str("</body></html>\n");
    s
}

fn cac_muc() -> Vec<Muc> {
    vec![
        Muc { ten: "mimetype".into(), noi_dung: b"application/epub+zip".to_vec() },
        Muc { ten: "META-INF/container.xml".into(), noi_dung: CONTAINER.as_bytes().to_vec() },
        Muc { ten: "OEBPS/content.opf".into(), noi_dung: OPF.as_bytes().to_vec() },
        Muc { ten: "OEBPS/ch1.xhtml".into(), noi_dung: chuong().into_bytes() },
    ]
}

/// Các byte của file EPUB thử nghiệm.
fn dung_epub() -> Vec<u8> {
    ghi_moi(&cac_muc()).unwrap()
}

/// Nạp file, soát cả sách, thay nội dung các file đã sửa rồi ghi lại; trả kết
/// quả, các byte của file ra và các mục đã đổi.
fn chay_xu_ly(vao: &[u8]) -> (KetQuaSach, Vec<u8>, Vec<usize>) {
    let epub = Epub::nap_tu_byte(vao.to_vec()).unwrap();
    let chi_so = epub.chi_so_van_ban();
    let (mut kq, doi) = soat_sach(
        &epub.muc,
        &chi_so,
        TuyChon::default(),
        TuDien::nap(AM_TIET, TU_GHEP),
        de_nham::Bang::nap("[LUON_SAI]\nxử dụng => sử dụng\n"),
        typo::Bang::nap(""),
    )
    .expect("sách nhỏ không thể vượt giới hạn");
    kq.nhan_de = epub.nhan_de();
    let mut moi = epub;
    let mut da_doi = Vec::new();
    for (i, chu) in doi {
        moi.muc[i].noi_dung = chu.into_bytes();
        da_doi.push(i);
    }
    let ra = moi.ghi(vao, &da_doi).unwrap();
    (kq, ra, da_doi)
}

fn chay() -> (KetQuaSach, String) {
    let (kq, ra, _) = chay_xu_ly(&dung_epub());
    let epub = Epub::nap_tu_byte(ra).unwrap();
    let ch = epub.muc.iter().find(|m| m.ten.ends_with("ch1.xhtml")).unwrap();
    (kq, String::from_utf8(ch.noi_dung.clone()).unwrap())
}

#[test]
fn sua_dung_nhung_loi_cai_san() {
    let (kq, ch) = chay();
    assert!(ch.contains("sử dụng máy tính"), "chưa sửa cặp dễ nhầm:\n{ch}");
    assert!(ch.contains("rất quý giá"), "chưa sửa dấu thanh sau `qu`:\n{ch}");
    assert!(ch.contains("Trời mưa, rồi tạnh. Anh đi ra."), "chưa dọn dấu câu:\n{ch}");
    assert!(ch.contains("Trời không mưa nữa"), "chưa bỏ gạch nối mềm:\n{ch}");
    assert!(kq.da_sua.len() >= 5, "quá ít phép sửa: {:?}", kq.da_sua);
}

#[test]
fn khong_dung_vao_thu_khong_duoc_dung() {
    let (_, ch) = chay();
    assert!(ch.contains("Giá 1,5 triệu và 12.000 đồng lúc 10:30."), "đã phá con số:\n{ch}");
    assert!(ch.contains("Dumbledore") && ch.contains("Voldemort"), "đã đổi tên riêng:\n{ch}");
    assert!(ch.contains("&amp;"), "thực thể XML bị phá:\n{ch}");
    assert!(ch.contains("<pre>xử dụng</pre>"), "đã đụng vào <pre>:\n{ch}");
    assert!(ch.contains("khô<i>ng</i> bao giờ"), "đã xén thẻ inline:\n{ch}");
}

#[test]
fn tu_ghep_sua_duoc_ma_khong_can_mo_hinh() {
    let (_, ch) = chay();
    assert!(ch.contains("Tình thương của mẹ"), "chưa dùng bằng chứng từ ghép:\n{ch}");
}

#[test]
fn tieng_sai_khong_ai_quyet_duoc_thi_de_lai() {
    let (kq, ch) = chay();
    assert!(ch.contains("Ừ thuơng à"), "đã đoán bừa:\n{ch}");
    assert!(kq.chua_sua.iter().any(|c| c.goc == "thuơng"), "không ghi vào chỗ ngờ: {:?}", kq.chua_sua);
}

#[test]
fn file_ra_van_la_epub_hop_le() {
    let (_, ra, _) = chay_xu_ly(&dung_epub());
    let mut kho = zip::ZipArchive::new(std::io::Cursor::new(ra)).unwrap();
    let dau = kho.by_index(0).unwrap();
    assert_eq!(dau.name().unwrap(), "mimetype");
    assert_eq!(dau.compression(), zip::CompressionMethod::Stored);
    drop(dau);
    assert_eq!(kho.len(), 4);
}

#[test]
fn file_khong_sua_thi_giu_nguyen_tung_byte() {
    let vao = dung_epub();
    let (_, ra, da_doi) = chay_xu_ly(&vao);
    assert_eq!(da_doi, vec![3]);
    let a = Epub::nap_tu_byte(vao).unwrap();
    let b = Epub::nap_tu_byte(ra).unwrap();
    for ten in ["mimetype", "META-INF/container.xml", "OEBPS/content.opf"] {
        let x = a.muc.iter().find(|m| m.ten == ten).unwrap();
        let y = b.muc.iter().find(|m| m.ten == ten).unwrap();
        assert_eq!(x.noi_dung, y.noi_dung, "{ten} bị đổi mà không ai yêu cầu");
    }
}

#[test]
fn chay_lai_thi_hoi_tu() {
    let (kq1, ra1, _) = chay_xu_ly(&dung_epub());
    let (kq2, ra2, _) = chay_xu_ly(&ra1);
    for s in &kq2.da_sua {
        assert_eq!(s.loai, Loai::KhoangTrang, "lượt hai sửa thứ không phải khoảng trắng vướng thẻ: {s:?}");
    }
    assert_eq!(kq2.vuong_the, kq1.vuong_the, "số chỗ vướng thẻ phải ổn định giữa hai lượt");
    let a = Epub::nap_tu_byte(ra1).unwrap();
    let b = Epub::nap_tu_byte(ra2).unwrap();
    assert_eq!(a.muc.len(), b.muc.len());
    for (x, y) in a.muc.iter().zip(b.muc.iter()) {
        assert_eq!(x.ten, y.ten);
        assert_eq!(x.noi_dung, y.noi_dung, "{} đổi ở lượt hai", x.ten);
    }
}

#[test]
fn giu_nguyen_nhan_de_va_dem_dung_so_doan() {
    let (kq, _) = chay();
    assert_eq!(kq.nhan_de.as_deref(), Some("Sách thử nghiệm"));
    assert!(kq.so_doan >= 8, "đếm thiếu đoạn: {}", kq.so_doan);
    assert_eq!(kq.so_file, 1);
}

