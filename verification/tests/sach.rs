use chinhta::nhat_ky::Muc as MucNhatKy;
use chinhta::sach::{doc_chuoi, Epub, Muc, ghi_moi, phuong_phap_nen, BuocGhi, LoiNap};
use chinhta::kho_zip::NenKieu;

fn muc(ten: &str, noi_dung: &str) -> Muc {
    Muc { ten: ten.to_string(), noi_dung: noi_dung.as_bytes().to_vec() }
}

#[test]
fn chi_lay_muc_van_ban() {
    let e = Epub {
        muc: vec![
            muc("mimetype", "application/epub+zip"),
            muc("OEBPS/content.opf", ""),
            muc("OEBPS/Chuong1.XHTML", ""),
            muc("OEBPS/toc.xhtml", ""),
            muc("OEBPS/bia.htm", ""),
            muc("OEBPS/anh.png", ""),
            muc("OEBPS/c2.html", ""),
        ],
    };
    assert_eq!(e.chi_so_van_ban(), vec![2, 4, 6]);
}

#[test]
fn nhan_de_tu_opf() {
    let opf = "<package><metadata><dc:title id=\"t\">  Truyện &amp; Kiều </dc:title></metadata></package>";
    let e = Epub { muc: vec![muc("a.xhtml", "<title>Sai</title>"), muc("OEBPS/Content.OPF", opf)] };
    assert_eq!(e.nhan_de(), Some("Truyện & Kiều".to_string()));
    let e = Epub { muc: vec![muc("x.opf", "<title>Chỉ có title</title>")] };
    assert_eq!(e.nhan_de(), Some("Chỉ có title".to_string()));
    let e = Epub { muc: vec![muc("x.opf", "<dc:title>   </dc:title>")] };
    assert_eq!(e.nhan_de(), None);
    let e = Epub { muc: vec![muc("x.xhtml", "<dc:title>A</dc:title>")] };
    assert_eq!(e.nhan_de(), None);
}

#[test]
fn doc_chuoi_bo_bom_va_tu_choi_byte_hong() {
    assert_eq!(doc_chuoi(&[0xEF, 0xBB, 0xBF, b'a', b'b']), Some("ab".to_string()));
    assert_eq!(doc_chuoi("Việt".as_bytes()), Some("Việt".to_string()));
    assert_eq!(doc_chuoi(&[b'a', 0xFF]), None);
    assert_eq!(doc_chuoi(&[]), Some(String::new()));
}

#[test]
fn dau_dong_nhat_ky() {
    assert_eq!(MucNhatKy::ChiTiet.dau(), "  ");
    assert_eq!(MucNhatKy::Buoc.dau(), "▸ ");
    assert_eq!(MucNhatKy::CanhBao.dau(), "! ");
    assert!(MucNhatKy::ChiTiet < MucNhatKy::CanhBao);
}

fn zip_co_thu_muc() -> Vec<u8> {
    let mut w = zip::ZipWriter::new(std::io::Cursor::new(Vec::new()));
    let luu = zip::write::SimpleFileOptions::default().compression_method(zip::CompressionMethod::Stored);
    w.start_file("mimetype", luu).unwrap();
    std::io::Write::write_all(&mut w, b"application/epub+zip").unwrap();
    w.add_directory("OEBPS/", luu).unwrap();
    let nen = zip::write::SimpleFileOptions::default().compression_method(zip::CompressionMethod::Deflated);
    w.start_file("OEBPS/a.xhtml", nen).unwrap();
    std::io::Write::write_all(&mut w, "<p>một</p>".as_bytes()).unwrap();
    w.start_file("OEBPS/b.xhtml", nen).unwrap();
    std::io::Write::write_all(&mut w, "<p>hai</p>".as_bytes()).unwrap();
    w.finish().unwrap().into_inner()
}

#[test]
fn nap_bo_thu_muc_giu_thu_tu() {
    let e = Epub::nap_tu_byte(zip_co_thu_muc()).unwrap();
    let ten: Vec<&str> = e.muc.iter().map(|m| m.ten.as_str()).collect();
    assert_eq!(ten, vec!["mimetype", "OEBPS/a.xhtml", "OEBPS/b.xhtml"]);
    assert_eq!(e.muc[0].noi_dung, b"application/epub+zip".to_vec());
    assert_eq!(e.muc[2].noi_dung, "<p>hai</p>".as_bytes().to_vec());
}

#[test]
fn nap_byte_khong_phai_zip() {
    assert_eq!(Epub::nap_tu_byte(b"khong phai zip".to_vec()).unwrap_err(), LoiNap::KhongPhaiZip);
    assert_eq!(Epub::nap_tu_byte(Vec::new()).unwrap_err(), LoiNap::KhongPhaiZip);
}

#[test]
fn nap_zip_khong_co_tep() {
    let rong = ghi_moi(&[]).unwrap();
    assert_eq!(Epub::nap_tu_byte(rong).unwrap_err(), LoiNap::ZipRong);
    let mut w = zip::ZipWriter::new(std::io::Cursor::new(Vec::new()));
    w.add_directory("OEBPS/", zip::write::SimpleFileOptions::default()).unwrap();
    let chi_thu_muc = w.finish().unwrap().into_inner();
    assert_eq!(Epub::nap_tu_byte(chi_thu_muc).unwrap_err(), LoiNap::ZipRong);
}

#[test]
fn nap_muc_hong() {
    let mut b = ghi_moi(&[muc("mimetype", "application/epub+zip"), muc("a.xhtml", "<p>một hai ba bốn năm sáu bảy</p>")]).unwrap();
    // Đổi một byte dữ liệu nén của mục thứ hai: dữ liệu hay CRC không còn khớp.
    let dau = b.windows(7).position(|w| w == b"a.xhtml").unwrap() - 30;
    let dai_ten = u16::from_le_bytes([b[dau + 26], b[dau + 27]]) as usize;
    let dai_phu = u16::from_le_bytes([b[dau + 28], b[dau + 29]]) as usize;
    let du_lieu = dau + 30 + dai_ten + dai_phu;
    b[du_lieu + 1] ^= 0xff;
    assert_eq!(Epub::nap_tu_byte(b).unwrap_err(), LoiNap::MucHong);
}

#[test]
fn ghi_moi_roi_nap_lai_dung_nhu_cu() {
    let muc_goc = vec![muc("mimetype", "application/epub+zip"), muc("OEBPS/ch1.xhtml", "<p>xin chào</p>"), muc("rong.txt", "")];
    let b = ghi_moi(&muc_goc).unwrap();
    let e = Epub::nap_tu_byte(b.clone()).unwrap();
    assert_eq!(e.muc.len(), 3);
    for (x, y) in muc_goc.iter().zip(e.muc.iter()) {
        assert_eq!(x.ten, y.ten);
        assert_eq!(x.noi_dung, y.noi_dung);
    }
    let mut kho = zip::ZipArchive::new(std::io::Cursor::new(b)).unwrap();
    assert_eq!(kho.by_index(0).unwrap().compression(), zip::CompressionMethod::Stored);
    assert_eq!(kho.by_index(1).unwrap().compression(), zip::CompressionMethod::Deflated);
}

#[test]
fn ghi_moi_mimetype_khong_dung_dau_thi_nen() {
    let b = ghi_moi(&[muc("a.txt", "x"), muc("mimetype", "application/epub+zip")]).unwrap();
    let mut kho = zip::ZipArchive::new(std::io::Cursor::new(b)).unwrap();
    assert_eq!(kho.by_index(1).unwrap().compression(), zip::CompressionMethod::Deflated);
}

#[test]
fn ghi_moi_trung_ten_thi_that_bai() {
    assert!(ghi_moi(&[muc("a.txt", "x"), muc("a.txt", "y")]).is_none());
}

#[test]
fn phuong_phap_nen_chi_luu_tho_mimetype_dau() {
    assert_eq!(phuong_phap_nen(0, "mimetype"), NenKieu::LuuTho);
    assert_eq!(phuong_phap_nen(1, "mimetype"), NenKieu::Nen);
    assert_eq!(phuong_phap_nen(0, "Mimetype"), NenKieu::Nen);
    assert_eq!(phuong_phap_nen(0, "OEBPS/ch1.xhtml"), NenKieu::Nen);
}

#[test]
fn ke_hoach_ghi_theo_ten() {
    let e = Epub { muc: vec![muc("mimetype", "m"), muc("a.xhtml", "A"), muc("b.xhtml", "B")] };
    let ten: Vec<String> = ["mimetype", "thu_muc/", "a.xhtml", "b.xhtml", "khac\\"].iter().map(|t| t.to_string()).collect();
    let kh = e.ke_hoach_ghi(&ten, &[2, 1]);
    assert_eq!(kh, vec![BuocGhi::ChepTho, BuocGhi::BoQua, BuocGhi::NenLai(1), BuocGhi::NenLai(2), BuocGhi::BoQua]);
    assert_eq!(e.ke_hoach_ghi(&ten, &[]), vec![BuocGhi::ChepTho, BuocGhi::BoQua, BuocGhi::ChepTho, BuocGhi::ChepTho, BuocGhi::BoQua]);
}

#[test]
fn ghi_lai_chi_doi_muc_da_sua() {
    let goc = zip_co_thu_muc();
    let mut e = Epub::nap_tu_byte(goc.clone()).unwrap();
    e.muc[1].noi_dung = "<p>một đã sửa</p>".as_bytes().to_vec();
    let ra = e.ghi(&goc, &[1]).unwrap();
    let lai = Epub::nap_tu_byte(ra.clone()).unwrap();
    assert_eq!(lai.muc.len(), 3);
    for (x, y) in e.muc.iter().zip(lai.muc.iter()) {
        assert_eq!(x.ten, y.ten);
        assert_eq!(x.noi_dung, y.noi_dung);
    }
    let mut kho = zip::ZipArchive::new(std::io::Cursor::new(ra)).unwrap();
    // Mục thư mục bị bỏ; `mimetype` vẫn đứng đầu và không nén.
    assert_eq!(kho.len(), 3);
    let dau = kho.by_index(0).unwrap();
    assert_eq!(dau.name().unwrap(), "mimetype");
    assert_eq!(dau.compression(), zip::CompressionMethod::Stored);
}

#[test]
fn ghi_lai_khong_sua_gi_thi_giu_khoi_nen() {
    let goc = ghi_moi(&[muc("mimetype", "application/epub+zip"), muc("a.xhtml", "<p>một hai ba</p>")]).unwrap();
    let e = Epub::nap_tu_byte(goc.clone()).unwrap();
    let ra = e.ghi(&goc, &[]).unwrap();
    let mut k1 = zip::ZipArchive::new(std::io::Cursor::new(goc.clone())).unwrap();
    let mut k2 = zip::ZipArchive::new(std::io::Cursor::new(ra)).unwrap();
    for i in 0..2 {
        let mut a = Vec::new();
        let mut b = Vec::new();
        std::io::Read::read_to_end(&mut k1.by_index_raw(i).unwrap(), &mut a).unwrap();
        std::io::Read::read_to_end(&mut k2.by_index_raw(i).unwrap(), &mut b).unwrap();
        assert_eq!(a, b);
    }
    assert!(e.ghi(b"khong phai zip", &[]).is_none());
}

#[test]
fn tu_muc_zip_bo_thu_muc() {
    let ds = vec![
        ("mimetype".to_string(), true, b"application/epub+zip".to_vec()),
        ("OEBPS/".to_string(), true, Vec::new()),
        ("OEBPS\\anh\\".to_string(), true, Vec::new()),
        ("OEBPS/a.xhtml".to_string(), false, b"<p>a</p>".to_vec()),
    ];
    let e = Epub::tu_muc_zip(&ds).unwrap();
    let ten: Vec<&str> = e.muc.iter().map(|m| m.ten.as_str()).collect();
    assert_eq!(ten, vec!["mimetype", "OEBPS/a.xhtml"]);
    assert_eq!(e.muc[1].noi_dung, b"<p>a</p>".to_vec());
    assert_eq!(Epub::tu_muc_zip(&vec![("x/".to_string(), false, Vec::new())]).unwrap_err(), LoiNap::ZipRong);
    assert_eq!(Epub::tu_muc_zip(&Vec::new()).unwrap_err(), LoiNap::ZipRong);
}

#[test]
fn sach_khong_co_van_ban_bi_tu_choi() {
    let e = Epub { muc: vec![muc("mimetype", "application/epub+zip"), muc("OEBPS/content.opf", "<package/>")] };
    assert_eq!(e.van_ban_can_soat().unwrap_err(), LoiNap::KhongCoVanBan);
    let e = Epub { muc: vec![muc("mimetype", "application/epub+zip"), muc("OEBPS/c1.xhtml", "<p>a</p>")] };
    assert_eq!(e.van_ban_can_soat().unwrap(), vec![1]);
}

#[test]
fn ghi_lai_sach_doc_duoc_thi_thanh_cong() {
    let goc = ghi_moi(&[muc("mimetype", "application/epub+zip"), muc("OEBPS/c1.xhtml", "<p>một</p>"), muc("OEBPS/c2.xhtml", "<p>hai</p>")]).unwrap();
    let mut e = Epub::nap_tu_byte(goc.clone()).unwrap();
    e.muc[2].noi_dung = "<p>hai đã sửa</p>".as_bytes().to_vec();
    let ra = e.ghi(&goc, &[2, 2]).expect("sách đọc được, tên khác nhau: phải ghi được");
    let lai = Epub::nap_tu_byte(ra).unwrap();
    assert_eq!(lai.muc[2].noi_dung, "<p>hai đã sửa</p>".as_bytes().to_vec());
    assert_eq!(lai.muc[1].noi_dung, "<p>một</p>".as_bytes().to_vec());
}
