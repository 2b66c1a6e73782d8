//! Tầng zip của EPUB: đọc các mục của một file zip và ghi một file zip mới,
//! qua crate `zip`.
//!
//! Một mục đọc được mô tả bằng ba giá trị: tên, có phải lưu thô (phương pháp
//! `Stored`, không nén) hay không, và nội dung đã giải nén. Mục là thư mục khi
//! tên tận cùng bằng `/` hoặc `\` — đúng quy tắc `is_dir` của crate `zip`.
use vstd::prelude::*;
use std::io::Cursor;
use vstd::utf8::encode_utf8;
use zip::ZipWriter;

verus! {

/// Bộ ghi zip trên bộ nhớ (`zip::ZipWriter` trên một `Cursor<Vec<u8>>`). Verus
/// không nhận khai báo kiểu `ZipWriter` của crate (các ràng buộc `Write + Seek`
/// của nó), nên bộ ghi nằm trong trường riêng của kiểu này; các mục đã ghi được
/// mô tả bằng [`muc_da_ghi`].
#[verifier::external_body]
pub struct BoGhiZip {
    viet: ZipWriter<Cursor<Vec<u8>>>,
}

/// Một mục zip đọc được: tên, lưu thô hay không, nội dung đã giải nén.
pub type MucZipV = (Seq<char>, bool, Seq<u8>);

/// Tên này là của một thư mục: tận cùng bằng `/` hoặc `\`.
pub open spec fn la_thu_muc(ten: Seq<char>) -> bool {
    ten.len() > 0 && (ten.last() == '/' || ten.last() == '\\')
}

/// Các mục của file zip có nội dung `b`, đúng thứ tự trong thư mục trung tâm,
/// như `zip::ZipArchive` đọc ra: `None` khi không mở được file; mục thứ `i` là
/// `None` khi không đọc được mục đó (tên, dữ liệu hay phép giải nén hỏng).
pub uninterp spec fn muc_zip_cua(b: Seq<u8>) -> Option<Seq<Option<MucZipV>>>;

/// Các mục đã ghi vào một bộ ghi zip, mỗi mục ở dạng sẽ đọc lại được khi file
/// zip hoàn tất.
pub uninterp spec fn muc_da_ghi(w: BoGhiZip) -> Seq<Option<MucZipV>>;

/// Mục thứ `i` của file zip `b` chép nguyên khối được sang một file zip mới:
/// `by_index_raw` mở được nó, và phần đầu mục nó mang theo (tên, các trường phụ,
/// chú thích, cỡ dữ liệu) lọt qua các giới hạn 64 KiB mà `ZipWriter` kiểm khi bắt
/// đầu mục (`start_entry`) và khi ghi thư mục trung tâm, kể cả khi mục nằm quá
/// mốc 4 GiB và cần thêm trường ZIP64. Là hàm của riêng các byte của file gốc.
pub uninterp spec fn chep_duoc(b: Seq<u8>, i: int) -> bool;

/// Bộ ghi `w` hoàn tất được (`finish` thành công): mục đang ghi dở đóng lại được
/// và mọi mục đã ghi có phần đầu vừa thư mục trung tâm.
pub uninterp spec fn dong_duoc(w: BoGhiZip) -> bool;

/// Tên `ten` chưa có trong các mục đã ghi `ds`, và tên của mọi mục ấy đều đã biết.
pub open spec fn ten_moi(ds: Seq<Option<MucZipV>>, ten: Seq<char>) -> bool {
    forall|k: int| 0 <= k < ds.len() ==> (#[trigger] ds[k]) is Some && ds[k]->Some_0.0 != ten
}

/// Tên vừa trường tên của đầu mục zip (cùng phần đầu cố định 30 byte, dưới 64 KiB).
pub open spec fn ten_vua(ten: Seq<char>) -> bool {
    encode_utf8(ten).len() < 65000
}

/// Nội dung đủ nhỏ để dù nén hay lưu thô, mục vẫn dưới mốc 4 GiB của zip
/// thường (mục không bật ZIP64): dưới 1 GiB.
pub open spec fn noi_dung_vua(n: nat) -> bool {
    n < 0x4000_0000
}

/// Mở file zip `b` bằng `zip::ZipArchive::new` và đếm mục bằng `len`.
/// Kết quả là `None` đúng khi không mở được; ngược lại là số mục.
#[verifier::external_body]
pub(crate) fn so_muc_zip(b: &[u8]) -> (r: Option<usize>)
    ensures
        match muc_zip_cua(b@) {
            None => r is None,
            Some(m) => r matches Some(n) && n == m.len(),
        },
{
    match zip::ZipArchive::new(Cursor::new(b)) {
        Ok(kho) => Some(kho.len()),
        Err(_) => None,
    }
}

/// Đọc mục thứ `i` của file zip `b`: `ZipArchive::by_index`, rồi `name`,
/// `compression` và `read_to_end` trên mục đó. Kết quả là đúng mục thứ `i` của
/// [`muc_zip_cua`].
#[verifier::external_body]
pub(crate) fn doc_muc_zip(b: &[u8], i: usize) -> (r: Option<(String, bool, Vec<u8>)>)
    requires
        muc_zip_cua(b@) matches Some(m) && i < m.len(),
    ensures
        match r {
            None => muc_zip_cua(b@)->Some_0[i as int] is None,
            Some(x) => muc_zip_cua(b@)->Some_0[i as int] == Some((x.0@, x.1, x.2@)),
        },
{
    let mut kho = zip::ZipArchive::new(Cursor::new(b)).ok()?;
    let mut f = kho.by_index(i).ok()?;
    let ten = f.name().ok()?.to_string();
    let tho = matches!(f.compression(), zip::CompressionMethod::Stored);
    let mut v: Vec<u8> = Vec::new();
    std::io::Read::read_to_end(&mut f, &mut v).ok()?;
    Some((ten, tho, v))
}

/// Cách lưu dữ liệu một mục mới vào file zip.
#[derive(Debug, Clone, Copy, PartialEq, Eq, Structural)]
pub enum NenKieu {
    /// Không nén (`Stored`).
    LuuTho,
    /// Nén `Deflated`.
    Nen,
}

/// Tạo bộ ghi zip mới trên một vùng nhớ rỗng (`ZipWriter::new`); chưa có mục nào.
#[verifier::external_body]
pub(crate) fn tao_zip() -> (w: BoGhiZip)
    ensures
        muc_da_ghi(w) == Seq::<Option<MucZipV>>::empty(),
        dong_duoc(w),
{
    BoGhiZip { viet: ZipWriter::new(Cursor::new(Vec::new())) }
}

/// Chép nguyên khối đã nén mục thứ `i` của file zip `goc` sang bộ ghi:
/// `ZipArchive::by_index_raw` rồi `ZipWriter::raw_copy_file`. Tên (đúng các byte
/// cũ), phương pháp nén, dữ liệu nén và CRC được chép y nguyên, nên khi thành
/// công, mục mới đọc lại đúng như mục `i` đọc trong `goc`. Chép chỉ hỏng khi
/// mục không chép được ([`chep_duoc`]), khi tên (đúng các byte cũ) đã có trong
/// file đang ghi, hay khi mục trước chưa đóng được; các byte khác nhau thì tên
/// đọc ra cũng khác nhau, nên tên đọc ra chưa có là đủ. Khi thất bại, bộ ghi
/// không còn dùng được và hợp đồng không nói gì về nó.
#[verifier::external_body]
pub(crate) fn chep_tho(w: &mut BoGhiZip, goc: &[u8], i: usize) -> (r: bool)
    requires
        muc_zip_cua(goc@) matches Some(m) && i < m.len(),
    ensures
        r ==> muc_da_ghi(*final(w)) == muc_da_ghi(*old(w)).push(muc_zip_cua(goc@)->Some_0[i as int]),
        dong_duoc(*old(w)) && chep_duoc(goc@, i as int) && (muc_zip_cua(goc@)->Some_0[i as int] matches Some(x)
            && ten_moi(muc_da_ghi(*old(w)), x.0)) ==> r,
        r && dong_duoc(*old(w)) && chep_duoc(goc@, i as int) ==> dong_duoc(*final(w)),
{
    let Ok(mut kho) = zip::ZipArchive::new(Cursor::new(goc)) else { return false };
    let Ok(f) = kho.by_index_raw(i) else { return false };
    w.viet.raw_copy_file(f).is_ok()
}

/// Thêm một mục mới tên `ten` với nội dung `noi_dung`: `ZipWriter::start_file`
/// (phương pháp `Stored` hay `Deflated` theo `nen`) rồi `write_all`. Khi thành
/// công, file có thêm đúng một mục; nếu tên không phải thư mục, mục đó đọc lại
/// được đúng tên, đúng cách lưu và đúng nội dung. Thời điểm sửa đổi và quyền
/// truy cập ghi vào mục không được nói ở đây. `start_file` chỉ từ chối tên đã
/// có hay tên mà cùng phần đầu 30 byte vượt 64 KiB, và mục trước phải đóng được;
/// ghi vào vùng nhớ thì không hỏng, và nội dung dưới 1 GiB thì dù nén (theo giới
/// hạn phình của deflate) vẫn dưới mốc 4 GiB nên mục này cũng đóng được.
#[verifier::external_body]
pub(crate) fn viet_muc(w: &mut BoGhiZip, ten: &str, noi_dung: &[u8], nen: NenKieu) -> (r: bool)
    ensures
        r ==> muc_da_ghi(*final(w)).len() == muc_da_ghi(*old(w)).len() + 1,
        r ==> muc_da_ghi(*final(w)).take(muc_da_ghi(*old(w)).len() as int) == muc_da_ghi(*old(w)),
        r && !la_thu_muc(ten@) ==> muc_da_ghi(*final(w)).last() == Some((ten@, nen == NenKieu::LuuTho, noi_dung@)),
        dong_duoc(*old(w)) && ten_moi(muc_da_ghi(*old(w)), ten@) && ten_vua(ten@) && noi_dung_vua(noi_dung@.len()) ==> r,
        r && dong_duoc(*old(w)) && noi_dung_vua(noi_dung@.len()) ==> dong_duoc(*final(w)),
{
    let cach = match nen {
        NenKieu::LuuTho => zip::CompressionMethod::Stored,
        NenKieu::Nen => zip::CompressionMethod::Deflated,
    };
    let tuy = zip::write::SimpleFileOptions::default().compression_method(cach);
    w.viet.start_file(ten, tuy).is_ok() && std::io::Write::write_all(&mut w.viet, noi_dung).is_ok()
}

/// Hoàn tất file zip (`ZipWriter::finish`) và lấy ra các byte đã ghi. Khi thành
/// công, đọc lại các byte đó được đúng các mục đã ghi, theo thứ tự; hoàn tất
/// được ([`dong_duoc`]) thì thành công — bộ ghi trên vùng nhớ không hỏng vì I/O,
/// và quá mốc 4 GiB hay 65535 mục thì `finish` tự dùng ZIP64.
#[verifier::external_body]
pub(crate) fn xong_zip(w: BoGhiZip) -> (r: Option<Vec<u8>>)
    ensures
        r matches Some(out) ==> muc_zip_cua(out@) == Some(muc_da_ghi(w)),
        dong_duoc(w) ==> r is Some,
{
    match w.viet.finish() {
        Ok(c) => Some(c.into_inner()),
        Err(_) => None,
    }
}

} // verus!
