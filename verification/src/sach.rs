//! Cuốn EPUB trong bộ nhớ: các mục của file zip, đúng thứ tự gốc.
//!
//! Nguyên tắc xuyên suốt: **ghi lại đúng cuốn sách cũ, trừ những byte đã sửa.**
//! Ở đây chỉ có phần tính toán trên nội dung đã nạp: mục nào là văn bản sách,
//! nhan đề, và đọc nội dung một mục thành chữ.
use vstd::prelude::*;
use vstd::utf8::{decode_utf8, valid_utf8};
use crate::chuoi::{bang_nhau, chuoi, cuoi_la, cat_doan, ky_tu, la_cuoi};
use crate::kho_zip::{
    BoGhiZip, MucZipV, NenKieu, chep_duoc, chep_tho, doc_muc_zip, dong_duoc, la_thu_muc, muc_da_ghi, muc_zip_cua,
    noi_dung_vua, so_muc_zip, tao_zip, ten_moi, ten_vua, viet_muc, xong_zip,
};
use crate::tach_chuoi::{got, got_exec, tim_chuoi, tim_chuoi_exec};
use crate::thuc_the::giai_tu;

verus! {

/// Một mục trong file zip.
#[derive(Debug)]
pub struct Muc {
    pub ten: String,
    pub noi_dung: Vec<u8>,
}

/// Một mục ở dạng toán học.
pub struct MucV {
    pub ten: Seq<char>,
    pub noi_dung: Seq<u8>,
}

impl View for Muc {
    type V = MucV;

    open spec fn view(&self) -> MucV {
        MucV { ten: self.ten@, noi_dung: self.noi_dung@ }
    }
}

/// Một cuốn EPUB đã nạp vào bộ nhớ.
#[derive(Debug)]
pub struct Epub {
    /// Mọi mục trong zip, đúng thứ tự gốc.
    pub muc: Vec<Muc>,
}

/// Các mục ở dạng toán học.
pub open spec fn dsm(v: Seq<Muc>) -> Seq<MucV> {
    v.map_values(|m: Muc| m@)
}

/// Chữ cái ASCII viết thường (như `char::to_ascii_lowercase`).
pub open spec fn thuong_ascii(c: char) -> char {
    if 'A' <= c && c <= 'Z' {
        ((c as u32) + 32) as char
    } else {
        c
    }
}

/// Chuỗi viết thường phần chữ cái ASCII (như `str::to_ascii_lowercase`).
pub open spec fn thuong_ascii_chuoi(s: Seq<char>) -> Seq<char> {
    s.map_values(|c: char| thuong_ascii(c))
}

fn thuong_ascii_exec(s: &str) -> (r: Vec<char>)
    ensures
        r@ == thuong_ascii_chuoi(s@),
{
    let v = ky_tu(s);
    let mut r: Vec<char> = Vec::new();
    let mut i: usize = 0;
    while i < v.len()
        invariant
            i <= v@.len(),
            v@ == s@,
            r@ == thuong_ascii_chuoi(s@).take(i as int),
        decreases v.len() - i,
    {
        let c = v[i];
        let t = if 'A' <= c && c <= 'Z' {
            let b: u8 = (c as u32 + 32) as u8;
            b as char
        } else {
            c
        };
        assert(t == thuong_ascii(c));
        r.push(t);
        assert(thuong_ascii_chuoi(s@).take(i + 1) =~= thuong_ascii_chuoi(s@).take(i as int).push(t));
        i += 1;
    }
    assert(thuong_ascii_chuoi(s@).take(v@.len() as int) =~= thuong_ascii_chuoi(s@));
    r
}

/// Mục mang tên này là văn bản sách: đuôi `.xhtml`, `.html` hay `.htm` (không kể
/// hoa thường), và không phải mục lục.
pub open spec fn la_van_ban(ten: Seq<char>) -> bool {
    let t = thuong_ascii_chuoi(ten);
    (la_cuoi(".xhtml"@, t) || la_cuoi(".html"@, t) || la_cuoi(".htm"@, t)) && tim_chuoi(t, "/toc."@, 0) is None
}

/// Chỉ số các mục văn bản trong `m[..n]`, theo thứ tự.
pub open spec fn chi_so_den(m: Seq<MucV>, n: int) -> Seq<usize>
    decreases n,
{
    if n <= 0 {
        seq![]
    } else if la_van_ban(m[n - 1].ten) {
        chi_so_den(m, n - 1).push((n - 1) as usize)
    } else {
        chi_so_den(m, n - 1)
    }
}

fn la_van_ban_exec(ten: &str) -> (r: bool)
    ensures
        r == la_van_ban(ten@),
{
    let t = thuong_ascii_exec(ten);
    let a = ky_tu(".xhtml");
    let b = ky_tu(".html");
    let c = ky_tu(".htm");
    let d = ky_tu("/toc.");
    (cuoi_la(a.as_slice(), t.as_slice()) || cuoi_la(b.as_slice(), t.as_slice()) || cuoi_la(c.as_slice(), t.as_slice()))
        && tim_chuoi_exec(t.as_slice(), d.as_slice()).is_none()
}

/// Mục đầu tiên trong `m[i..]` có tên đuôi `.opf` (không kể hoa thường).
pub open spec fn tim_opf(m: Seq<MucV>, i: int) -> Option<int>
    decreases m.len() - i,
{
    if i < 0 || i >= m.len() {
        None
    } else if la_cuoi(".opf"@, thuong_ascii_chuoi(m[i].ten)) {
        Some(i)
    } else {
        tim_opf(m, i + 1)
    }
}

/// Đọc byte thành chữ như `String::from_utf8_lossy`: chuỗi byte hỏng được thay
/// bằng ký tự thay thế.
pub uninterp spec fn lossy_cua(b: Seq<u8>) -> Seq<char>;

/// Gọi `String::from_utf8_lossy`. Kết quả là hàm của riêng dãy byte (đặt tên
/// [`lossy_cua`]); theo tài liệu của std, byte UTF-8 hợp lệ thì được giải mã
/// nguyên vẹn. Cách thay các chuỗi byte hỏng không được nói ở đây.
#[verifier::external_body]
fn doc_lossy(b: &[u8]) -> (r: String)
    ensures
        r@ == lossy_cua(b@),
        valid_utf8(b@) ==> r@ == decode_utf8(b@),
{
    String::from_utf8_lossy(b).to_string()
}

/// Gọi `String::from_utf8`: theo tài liệu của std, thành công đúng khi dãy byte
/// là UTF-8 hợp lệ, và chuỗi nhận được là các ký tự mà dãy byte mã hoá.
#[verifier::external_body]
fn tu_utf8(b: Vec<u8>) -> (r: Option<String>)
    ensures
        r is Some <==> valid_utf8(b@),
        r matches Some(s) ==> s@ == decode_utf8(b@),
{
    String::from_utf8(b).ok()
}

/// Phần giữa thẻ mở nhan đề và thẻ đóng kế tiếp trong văn bản OPF `s`.
pub open spec fn the_nhan_de(s: Seq<char>) -> Option<Seq<char>> {
    let dau = match tim_chuoi(s, "<dc:title"@, 0) {
        Some(d) => Some(d),
        None => tim_chuoi(s, "<title"@, 0),
    };
    match dau {
        None => None,
        Some(d) => match tim_chuoi(s.skip(d), ">"@, 0) {
            None => None,
            Some(k) => {
                let mo = d + k + 1;
                match tim_chuoi(s.skip(mo), "</"@, 0) {
                    None => None,
                    Some(k2) => Some(s.subrange(mo, mo + k2)),
                }
            },
        },
    }
}

/// Nhan đề của sách: lấy từ mục OPF đầu tiên, bỏ khoảng trắng hai đầu, giải mã
/// thực thể; rỗng thì coi như không có.
pub open spec fn nhan_de_spec(m: Seq<MucV>) -> Option<Seq<char>> {
    match tim_opf(m, 0) {
        None => None,
        Some(k) => match the_nhan_de(lossy_cua(m[k].noi_dung)) {
            None => None,
            Some(t) => {
                let g = giai_tu(got(t), 0).0;
                if g.len() == 0 {
                    None
                } else {
                    Some(g)
                }
            },
        },
    }
}

proof fn lemma_tim_opf(m: Seq<MucV>, i: int)
    requires
        0 <= i,
    ensures
        tim_opf(m, i) matches Some(k) ==> i <= k < m.len() && la_cuoi(".opf"@, thuong_ascii_chuoi(m[k].ten)),
    decreases m.len() - i,
{
    if i < m.len() && !la_cuoi(".opf"@, thuong_ascii_chuoi(m[i].ten)) {
        lemma_tim_opf(m, i + 1);
    }
}


/// Lỗi khi nạp một cuốn EPUB từ các byte của nó.
#[derive(Debug, Clone, Copy, PartialEq, Eq, Structural)]
pub enum LoiNap {
    /// Không mở được thành file zip.
    KhongPhaiZip,
    /// Có mục không đọc được (tên, dữ liệu hay phép giải nén hỏng).
    MucHong,
    /// File zip không có mục nào ngoài thư mục: không phải EPUB.
    ZipRong,
    /// Sách không có file nội dung nào (`.xhtml`, `.html`, `.htm`) để soát.
    KhongCoVanBan,
}

/// Mọi mục của file zip đều đọc được.
pub open spec fn doc_duoc_het(m: Seq<Option<MucZipV>>) -> bool {
    forall|i: int| 0 <= i < m.len() ==> (#[trigger] m[i]) is Some
}

/// Các mục không phải thư mục trong `m[..n]`, đúng thứ tự, ở dạng tên và nội dung.
pub open spec fn tep_den(m: Seq<Option<MucZipV>>, n: int) -> Seq<MucV>
    decreases n,
{
    if n <= 0 {
        seq![]
    } else {
        let t = tep_den(m, n - 1);
        match m[n - 1] {
            Some(x) => if la_thu_muc(x.0) {
                t
            } else {
                t.push(MucV { ten: x.0, noi_dung: x.2 })
            },
            None => t,
        }
    }
}

/// Một mục zip đã đọc ở dạng toán học.
pub open spec fn mzv(x: (String, bool, Vec<u8>)) -> MucZipV {
    (x.0@, x.1, x.2@)
}

/// Các mục zip đã đọc, mục nào cũng đọc được.
pub open spec fn muc_doc_duoc(ds: Seq<(String, bool, Vec<u8>)>) -> Seq<Option<MucZipV>> {
    ds.map_values(|x: (String, bool, Vec<u8>)| Some(mzv(x)))
}

/// Kết quả nạp EPUB từ các byte `b`: các mục không phải thư mục, đúng thứ tự gốc.
pub open spec fn nap_spec(b: Seq<u8>) -> Result<Seq<MucV>, LoiNap> {
    match muc_zip_cua(b) {
        None => Err(LoiNap::KhongPhaiZip),
        Some(m) => if !doc_duoc_het(m) {
            Err(LoiNap::MucHong)
        } else if tep_den(m, m.len() as int).len() == 0 {
            Err(LoiNap::ZipRong)
        } else {
            Ok(tep_den(m, m.len() as int))
        },
    }
}

fn la_thu_muc_exec(ten: &str) -> (r: bool)
    ensures
        r == la_thu_muc(ten@),
{
    let v = ky_tu(ten);
    v.len() > 0 && (v[v.len() - 1] == '/' || v[v.len() - 1] == '\\')
}

/// Việc làm với một mục của file zip gốc khi ghi lại.
#[derive(Debug, Clone, Copy, PartialEq, Eq, Structural)]
pub enum BuocGhi {
    /// Mục thư mục: bỏ, như khi nạp.
    BoQua,
    /// Chép nguyên khối đã nén.
    ChepTho,
    /// Nén lại với nội dung mới của mục có chỉ số này trong sách.
    NenLai(usize),
}

/// Vị trí đầu tiên `k >= k0` trong `sua` mà mục `muc[sua[k]]` mang tên `ten`.
pub open spec fn tim_sua(muc: Seq<MucV>, sua: Seq<usize>, ten: Seq<char>, k0: int) -> Option<int>
    decreases sua.len() - k0,
{
    if k0 < 0 || k0 >= sua.len() {
        None
    } else if muc[sua[k0] as int].ten == ten {
        Some(k0)
    } else {
        tim_sua(muc, sua, ten, k0 + 1)
    }
}

proof fn lemma_tim_sua(muc: Seq<MucV>, sua: Seq<usize>, ten: Seq<char>, k0: int)
    requires
        0 <= k0,
    ensures
        tim_sua(muc, sua, ten, k0) matches Some(k) ==> k0 <= k < sua.len() && muc[sua[k] as int].ten == ten,
    decreases sua.len() - k0,
{
    if k0 < sua.len() && muc[sua[k0] as int].ten != ten {
        lemma_tim_sua(muc, sua, ten, k0 + 1);
    }
}

/// Việc làm với mục gốc mang tên `ten`: thư mục thì bỏ; tên trùng tên mục đã
/// sửa đầu tiên trong `sua` thì nén lại mục đó; còn lại chép nguyên khối.
pub open spec fn buoc_spec(muc: Seq<MucV>, sua: Seq<usize>, ten: Seq<char>) -> BuocGhi {
    if la_thu_muc(ten) {
        BuocGhi::BoQua
    } else {
        match tim_sua(muc, sua, ten, 0) {
            Some(k) => BuocGhi::NenLai(sua[k]),
            None => BuocGhi::ChepTho,
        }
    }
}

/// Các mục của file ghi ra khi làm theo kế hoạch `kh` trên `m[..n]`.
pub open spec fn ket_qua_ghi(m: Seq<Option<MucZipV>>, muc: Seq<MucV>, kh: Seq<BuocGhi>, n: int) -> Seq<Option<MucZipV>>
    decreases n,
{
    if n <= 0 {
        seq![]
    } else {
        let t = ket_qua_ghi(m, muc, kh, n - 1);
        match kh[n - 1] {
            BuocGhi::BoQua => t,
            BuocGhi::ChepTho => t.push(m[n - 1]),
            BuocGhi::NenLai(c) => t.push(Some((m[n - 1]->Some_0.0, false, muc[c as int].noi_dung))),
        }
    }
}

/// Kế hoạch ghi cho file zip gốc có các mục `m`.
pub open spec fn ke_hoach_spec(m: Seq<Option<MucZipV>>, muc: Seq<MucV>, sua: Seq<usize>) -> Seq<BuocGhi> {
    Seq::new(m.len(), |i: int| buoc_spec(muc, sua, m[i]->Some_0.0))
}

/// Các mục của file ghi lại từ file gốc có các mục `m`.
pub open spec fn ghi_spec(m: Seq<Option<MucZipV>>, muc: Seq<MucV>, sua: Seq<usize>) -> Seq<Option<MucZipV>> {
    ket_qua_ghi(m, muc, ke_hoach_spec(m, muc, sua), m.len() as int)
}

/// Mục mới thứ `i` tên `ten` được lưu thô đúng khi nó là `mimetype` đứng đầu.
pub open spec fn nen_spec(i: int, ten: Seq<char>) -> NenKieu {
    if i == 0 && ten == "mimetype"@ {
        NenKieu::LuuTho
    } else {
        NenKieu::Nen
    }
}

/// Cách lưu mục thứ `i` tên `ten` trong một file zip mới: `mimetype` phải đứng
/// đầu và không nén; mọi mục khác được nén.
pub fn phuong_phap_nen(i: usize, ten: &str) -> (r: NenKieu)
    ensures
        r == nen_spec(i as int, ten@),
{
    proof {
        reveal_strlit("mimetype");
    }
    if i == 0 && bang_nhau(ky_tu(ten).as_slice(), ky_tu("mimetype").as_slice()) {
        NenKieu::LuuTho
    } else {
        NenKieu::Nen
    }
}

/// `out` là file zip mới chứa đúng các mục `muc`, theo thứ tự: mỗi mục không
/// phải thư mục đọc lại được đúng tên, đúng nội dung, lưu thô đúng khi
/// [`nen_spec`] nói vậy.
pub open spec fn la_ban_ghi_moi(out: Seq<u8>, muc: Seq<MucV>) -> bool {
    muc_zip_cua(out) matches Some(z) && z.len() == muc.len() && forall|i: int|
        0 <= i < muc.len() && !la_thu_muc(muc[i].ten) ==> #[trigger] z[i] == Some(
            (muc[i].ten, nen_spec(i, muc[i].ten) == NenKieu::LuuTho, muc[i].noi_dung),
        )
}

proof fn lemma_tep_den_dau(s: Seq<Option<MucZipV>>, t: Seq<Option<MucZipV>>, n: int)
    requires
        0 <= n <= s.len(),
        n <= t.len(),
        s.take(n) == t.take(n),
    ensures
        tep_den(s, n) == tep_den(t, n),
    decreases n,
{
    if n > 0 {
        assert(s[n - 1] == s.take(n)[n - 1]);
        assert(t[n - 1] == t.take(n)[n - 1]);
        assert(s.take(n - 1) =~= s.take(n).take(n - 1));
        assert(t.take(n - 1) =~= t.take(n).take(n - 1));
        lemma_tep_den_dau(s, t, n - 1);
    }
}

proof fn lemma_tep_den_them(t: Seq<Option<MucZipV>>, e: Option<MucZipV>)
    ensures
        tep_den(t.push(e), t.len() + 1int) == match e {
            Some(x) => if la_thu_muc(x.0) {
                tep_den(t, t.len() as int)
            } else {
                tep_den(t, t.len() as int).push(MucV { ten: x.0, noi_dung: x.2 })
            },
            None => tep_den(t, t.len() as int),
        },
{
    assert(t.push(e).take(t.len() as int) =~= t.take(t.len() as int));
    lemma_tep_den_dau(t.push(e), t, t.len() as int);
}

proof fn lemma_tep_den_tien_to(m: Seq<Option<MucZipV>>, n: int, p: int)
    requires
        0 <= n <= p <= m.len(),
    ensures
        tep_den(m, n).len() <= tep_den(m, p).len(),
        tep_den(m, p).take(tep_den(m, n).len() as int) == tep_den(m, n),
    decreases p - n,
{
    if n < p {
        lemma_tep_den_tien_to(m, n, p - 1);
        assert(tep_den(m, p).take(tep_den(m, n).len() as int) =~= tep_den(m, p - 1).take(tep_den(m, n).len() as int));
    } else {
        assert(tep_den(m, p).take(tep_den(m, n).len() as int) =~= tep_den(m, n));
    }
}

proof fn lemma_tim_sua_khong(muc: Seq<MucV>, sua: Seq<usize>, ten: Seq<char>, k0: int, k: int)
    requires
        0 <= k0 <= k < sua.len(),
        tim_sua(muc, sua, ten, k0) is None,
    ensures
        muc[sua[k] as int].ten != ten,
    decreases k - k0,
{
    if k0 < k {
        lemma_tim_sua_khong(muc, sua, ten, k0 + 1, k);
    }
}

/// Các tên trong `muc` đôi một khác nhau.
pub open spec fn ten_rieng(muc: Seq<MucV>) -> bool {
    forall|i: int, j: int| 0 <= i < muc.len() && 0 <= j < muc.len() && i != j ==> #[trigger] muc[i].ten != #[trigger] muc[j].ten
}

/// `muc` là cuốn sách nạp từ file zip có các mục `m`, chỉ đổi nội dung các mục
/// có chỉ số trong `sua`: cùng số mục, cùng tên, đúng thứ tự; mục không có
/// trong `sua` giữ nguyên nội dung.
pub open spec fn chi_sua_noi_dung(m: Seq<Option<MucZipV>>, muc: Seq<MucV>, sua: Seq<usize>) -> bool {
    let g = tep_den(m, m.len() as int);
    &&& muc.len() == g.len()
    &&& forall|j: int| 0 <= j < muc.len() ==> (#[trigger] muc[j]).ten == g[j].ten
    &&& forall|k: int| 0 <= k < sua.len() ==> (#[trigger] sua[k]) < muc.len()
    &&& forall|j: int|
        0 <= j < muc.len() && (forall|k: int| 0 <= k < sua.len() ==> sua[k] != j) ==> (#[trigger] muc[j]).noi_dung
            == g[j].noi_dung
}

proof fn lemma_ket_qua_ghi(m: Seq<Option<MucZipV>>, muc: Seq<MucV>, sua: Seq<usize>, n: int)
    requires
        doc_duoc_het(m),
        ten_rieng(muc),
        chi_sua_noi_dung(m, muc, sua),
        0 <= n <= m.len(),
    ensures
        ({
            let k = ket_qua_ghi(m, muc, ke_hoach_spec(m, muc, sua), n);
            &&& doc_duoc_het(k)
            &&& tep_den(m, n).len() <= muc.len()
            &&& tep_den(k, k.len() as int) == muc.take(tep_den(m, n).len() as int)
        }),
    decreases n,
{
    let kh = ke_hoach_spec(m, muc, sua);
    let g = tep_den(m, m.len() as int);
    lemma_tep_den_tien_to(m, n, m.len() as int);
    if n == 0 {
        assert(muc.take(0) =~= Seq::<MucV>::empty());
    } else {
        lemma_ket_qua_ghi(m, muc, sua, n - 1);
        let t = ket_qua_ghi(m, muc, kh, n - 1);
        let j = tep_den(m, n - 1).len() as int;
        assert(m[n - 1] is Some);
        let x = m[n - 1]->Some_0;
        lemma_tep_den_tien_to(m, n - 1, m.len() as int);
        if la_thu_muc(x.0) {
            assert(kh[n - 1] == BuocGhi::BoQua);
        } else {
            assert(tep_den(m, n) == tep_den(m, n - 1).push(MucV { ten: x.0, noi_dung: x.2 }));
            assert(g.take(j + 1)[j] == g[j]);
            assert(g[j] == MucV { ten: x.0, noi_dung: x.2 });
            assert(muc[j].ten == x.0);
            lemma_tim_sua(muc, sua, x.0, 0);
            match tim_sua(muc, sua, x.0, 0) {
                Some(q) => {
                    let c = sua[q] as int;
                    assert(kh[n - 1] == BuocGhi::NenLai(sua[q]));
                    assert(muc[c].ten == muc[j].ten);
                    assert(c == j);
                    let e = Some((x.0, false, muc[c].noi_dung));
                    lemma_tep_den_them(t, e);
                    assert(muc.take(j + 1) =~= muc.take(j).push(muc[j]));
                },
                None => {
                    assert(kh[n - 1] == BuocGhi::ChepTho);
                    assert forall|k: int| 0 <= k < sua.len() implies sua[k] != j by {
                        lemma_tim_sua_khong(muc, sua, x.0, 0, k);
                    }
                    lemma_tep_den_them(t, m[n - 1]);
                    assert(muc.take(j + 1) =~= muc.take(j).push(muc[j]));
                },
            }
        }
    }
}

/// Ghi lại đúng cuốn sách cũ, trừ những byte đã sửa: nếu cuốn sách được nạp từ
/// file zip `goc` (mọi mục đọc được, tên các mục đôi một khác nhau) và chỉ đổi
/// nội dung các mục có chỉ số trong `sua`, thì nạp lại file `ghi` ghi ra được
/// đúng cuốn sách ấy: cùng các mục, cùng thứ tự, cùng nội dung.
pub proof fn lemma_ghi_roi_nap(goc: Seq<u8>, out: Seq<u8>, muc: Seq<MucV>, sua: Seq<usize>)
    requires
        muc_zip_cua(goc) matches Some(m) && doc_duoc_het(m) && chi_sua_noi_dung(m, muc, sua) && muc_zip_cua(out)
            == Some(ghi_spec(m, muc, sua)),
        ten_rieng(muc),
        muc.len() > 0,
    ensures
        nap_spec(out) == Ok::<Seq<MucV>, LoiNap>(muc),
{
    let m = muc_zip_cua(goc)->Some_0;
    lemma_ket_qua_ghi(m, muc, sua, m.len() as int);
    assert(muc.take(muc.len() as int) =~= muc);
}

proof fn lemma_ghi_moi_tep(z: Seq<Option<MucZipV>>, muc: Seq<MucV>, n: int)
    requires
        z.len() == muc.len(),
        0 <= n <= z.len(),
        forall|i: int| 0 <= i < muc.len() ==> !la_thu_muc(#[trigger] muc[i].ten),
        forall|i: int|
            0 <= i < muc.len() ==> #[trigger] z[i] == Some(
                (muc[i].ten, nen_spec(i, muc[i].ten) == NenKieu::LuuTho, muc[i].noi_dung),
            ),
    ensures
        tep_den(z, n) == muc.take(n),
    decreases n,
{
    if n > 0 {
        lemma_ghi_moi_tep(z, muc, n - 1);
        assert(z[n - 1] == Some((muc[n - 1].ten, nen_spec(n - 1, muc[n - 1].ten) == NenKieu::LuuTho, muc[n - 1].noi_dung)));
        assert(!la_thu_muc(muc[n - 1].ten));
        assert(muc.take(n) =~= muc.take(n - 1).push(muc[n - 1]));
    } else {
        assert(muc.take(0) =~= Seq::<MucV>::empty());
    }
}

/// Nạp lại file do `ghi_moi` ghi ra thì được đúng các mục đã ghi, theo thứ tự,
/// khi có ít nhất một mục và không tên nào là tên thư mục.
pub proof fn lemma_ghi_moi_roi_nap(out: Seq<u8>, muc: Seq<MucV>)
    requires
        la_ban_ghi_moi(out, muc),
        muc.len() > 0,
        forall|i: int| 0 <= i < muc.len() ==> !la_thu_muc(#[trigger] muc[i].ten),
    ensures
        nap_spec(out) == Ok::<Seq<MucV>, LoiNap>(muc),
{
    let z = muc_zip_cua(out)->Some_0;
    assert forall|i: int| 0 <= i < muc.len() implies #[trigger] z[i] == Some(
        (muc[i].ten, nen_spec(i, muc[i].ten) == NenKieu::LuuTho, muc[i].noi_dung),
    ) by {
        assert(!la_thu_muc(muc[i].ten));
    }
    lemma_ghi_moi_tep(z, muc, z.len() as int);
    assert(doc_duoc_het(z));
    assert(muc.take(muc.len() as int) =~= muc);
}

/// Điều kiện để ghi lại được file zip gốc `b` có các mục `m`: mọi mục không
/// phải thư mục chép nguyên khối được và có tên vừa trường tên; các mục không
/// phải thư mục mang tên đôi một khác nhau; và nội dung mới của mọi mục đã sửa
/// dưới 1 GiB.
pub open spec fn ghi_duoc(b: Seq<u8>, m: Seq<Option<MucZipV>>, muc: Seq<MucV>, sua: Seq<usize>) -> bool {
    &&& forall|i: int|
        0 <= i < m.len() && !la_thu_muc((#[trigger] m[i])->Some_0.0) ==> chep_duoc(b, i) && ten_vua(m[i]->Some_0.0)
    &&& forall|i: int, j: int|
        0 <= i < j < m.len() && !la_thu_muc((#[trigger] m[i])->Some_0.0) && !la_thu_muc((#[trigger] m[j])->Some_0.0)
            ==> m[i]->Some_0.0 != m[j]->Some_0.0
    &&& forall|k: int| 0 <= k < sua.len() ==> noi_dung_vua(muc[(#[trigger] sua[k]) as int].noi_dung.len())
}

/// `x` mang tên của một mục không phải thư mục trong `m[..n]`.
spec fn ten_tu(m: Seq<Option<MucZipV>>, x: Option<MucZipV>, n: int) -> bool {
    x is Some && exists|j: int| 0 <= j < n && !la_thu_muc(m[j]->Some_0.0) && #[trigger] m[j]->Some_0.0 == x->Some_0.0
}

proof fn lemma_ket_qua_ten(m: Seq<Option<MucZipV>>, muc: Seq<MucV>, sua: Seq<usize>, n: int)
    requires
        0 <= n <= m.len(),
        doc_duoc_het(m),
    ensures
        forall|q: int|
            0 <= q < ket_qua_ghi(m, muc, ke_hoach_spec(m, muc, sua), n).len() ==> ten_tu(
                m,
                #[trigger] ket_qua_ghi(m, muc, ke_hoach_spec(m, muc, sua), n)[q],
                n,
            ),
    decreases n,
{
    if n > 0 {
        let kh = ke_hoach_spec(m, muc, sua);
        lemma_ket_qua_ten(m, muc, sua, n - 1);
        let t = ket_qua_ghi(m, muc, kh, n - 1);
        let k = ket_qua_ghi(m, muc, kh, n);
        assert(m[n - 1] is Some);
        assert forall|q: int| 0 <= q < k.len() implies ten_tu(m, #[trigger] k[q], n) by {
            if q < t.len() {
                assert(k[q] == t[q]);
                assert(ten_tu(m, t[q], n - 1));
                let j = choose|j: int| 0 <= j < n - 1 && !la_thu_muc(m[j]->Some_0.0) && #[trigger] m[j]->Some_0.0 == t[q]->Some_0.0;
                assert(m[j]->Some_0.0 == k[q]->Some_0.0);
            } else {
                assert(m[n - 1]->Some_0.0 == k[q]->Some_0.0);
            }
        }
    }
}

proof fn lemma_ket_qua_dau(m: Seq<Option<MucZipV>>, muc: Seq<MucV>, kh: Seq<BuocGhi>, n: int)
    requires
        1 <= n,
        kh[0] == BuocGhi::ChepTho,
    ensures
        ket_qua_ghi(m, muc, kh, n).len() >= 1,
        ket_qua_ghi(m, muc, kh, n)[0] == m[0],
    decreases n,
{
    if n > 1 {
        lemma_ket_qua_dau(m, muc, kh, n - 1);
    } else {
        assert(ket_qua_ghi(m, muc, kh, 0) =~= Seq::<Option<MucZipV>>::empty());
    }
}

/// Ghi lại giữ `mimetype` đứng đầu và lưu thô: nếu mục đầu của file gốc là
/// `mimetype` và không mục sửa nào mang tên ấy, mục đầu của file ghi ra chính là
/// mục ấy, đọc lại y nguyên (cùng tên, cùng cách lưu, cùng nội dung).
pub proof fn lemma_ghi_giu_mimetype(m: Seq<Option<MucZipV>>, muc: Seq<MucV>, sua: Seq<usize>)
    requires
        m.len() > 0,
        m[0] matches Some(x) && x.0 == "mimetype"@,
        forall|k: int| 0 <= k < sua.len() ==> muc[(#[trigger] sua[k]) as int].ten != "mimetype"@,
    ensures
        ghi_spec(m, muc, sua).len() > 0,
        ghi_spec(m, muc, sua)[0] == m[0],
{
    reveal_strlit("mimetype");
    let t = m[0]->Some_0.0;
    assert(!la_thu_muc(t));
    if tim_sua(muc, sua, t, 0) is Some {
        lemma_tim_sua(muc, sua, t, 0);
        let q = tim_sua(muc, sua, t, 0)->Some_0;
        assert(muc[sua[q] as int].ten == t);
        assert(false);
    }
    assert(ke_hoach_spec(m, muc, sua)[0] == BuocGhi::ChepTho);
    lemma_ket_qua_dau(m, muc, ke_hoach_spec(m, muc, sua), m.len() as int);
}

impl Epub {
    /// Nạp EPUB từ các byte của file zip: mọi mục không phải thư mục, đúng thứ
    /// tự gốc.
    pub fn nap_tu_byte(byte: Vec<u8>) -> (r: Result<Epub, LoiNap>)
        ensures
            match r {
                Ok(e) => nap_spec(byte@) == Ok::<Seq<MucV>, LoiNap>(dsm(e.muc@)),
                Err(l) => nap_spec(byte@) == Err::<Seq<MucV>, LoiNap>(l),
            },
    {
        let n = match so_muc_zip(byte.as_slice()) {
            None => {
                return Err(LoiNap::KhongPhaiZip);
            },
            Some(n) => n,
        };
        let ghost m = muc_zip_cua(byte@)->Some_0;
        let mut ds: Vec<(String, bool, Vec<u8>)> = Vec::new();
        let mut i: usize = 0;
        while i < n
            invariant
                muc_zip_cua(byte@) == Some(m),
                n == m.len(),
                i <= n,
                ds@.len() == i,
                forall|j: int| 0 <= j < i ==> (#[trigger] m[j]) == Some(mzv(ds@[j])),
            decreases n - i,
        {
            match doc_muc_zip(byte.as_slice(), i) {
                None => {
                    assert(!doc_duoc_het(m));
                    return Err(LoiNap::MucHong);
                },
                Some(x) => {
                    ds.push(x);
                },
            }
            i += 1;
        }
        assert(m =~= muc_doc_duoc(ds@));
        assert(doc_duoc_het(m));
        Epub::tu_muc_zip(&ds)
    }

    /// Dựng sách từ các mục đã đọc được của file zip (tên, lưu thô hay không,
    /// nội dung), đúng thứ tự: bỏ các mục thư mục; không còn mục nào thì không
    /// phải EPUB.
    pub fn tu_muc_zip(ds: &Vec<(String, bool, Vec<u8>)>) -> (r: Result<Epub, LoiNap>)
        ensures
            match r {
                Ok(e) => tep_den(muc_doc_duoc(ds@), ds@.len() as int).len() > 0 && dsm(e.muc@) == tep_den(
                    muc_doc_duoc(ds@),
                    ds@.len() as int,
                ),
                Err(l) => tep_den(muc_doc_duoc(ds@), ds@.len() as int).len() == 0 && l == LoiNap::ZipRong,
            },
    {
        let ghost m = muc_doc_duoc(ds@);
        let mut muc: Vec<Muc> = Vec::new();
        let mut i: usize = 0;
        while i < ds.len()
            invariant
                i <= ds@.len(),
                m == muc_doc_duoc(ds@),
                dsm(muc@) == tep_den(m, i as int),
            decreases ds.len() - i,
        {
            let x = &ds[i];
            assert(m[i as int] == Some(mzv(ds@[i as int])));
            if !la_thu_muc_exec(x.0.as_str()) {
                let noi_dung = x.2.clone();
                assert(noi_dung@ =~= x.2@);
                let ghost cu = muc@;
                muc.push(Muc { ten: x.0.clone(), noi_dung });
                assert(dsm(muc@) =~= dsm(cu).push(muc@.last()@));
            }
            i += 1;
        }
        if muc.len() == 0 {
            return Err(LoiNap::ZipRong);
        }
        Ok(Epub { muc })
    }

    /// Kế hoạch ghi lại file zip gốc có các mục mang tên `ten_goc` (đúng thứ
    /// tự): mục thư mục thì bỏ; mục trùng tên mục sửa đầu tiên trong `da_sua`
    /// thì nén lại nội dung mới; còn lại chép nguyên khối. Đối chiếu theo tên vì
    /// khi nạp các mục thư mục đã bị bỏ nên chỉ số hai bên lệch nhau.
    pub fn ke_hoach_ghi(&self, ten_goc: &Vec<String>, da_sua: &[usize]) -> (r: Vec<BuocGhi>)
        requires
            forall|k: int| 0 <= k < da_sua@.len() ==> (#[trigger] da_sua@[k]) < self.muc@.len(),
        ensures
            r@.len() == ten_goc@.len(),
            forall|i: int| 0 <= i < r@.len() ==> #[trigger] r@[i] == buoc_spec(dsm(self.muc@), da_sua@, ten_goc@[i]@),
    {
        let ghost mv = dsm(self.muc@);
        let mut r: Vec<BuocGhi> = Vec::new();
        let mut i: usize = 0;
        while i < ten_goc.len()
            invariant
                mv == dsm(self.muc@),
                forall|k: int| 0 <= k < da_sua@.len() ==> (#[trigger] da_sua@[k]) < self.muc@.len(),
                i <= ten_goc@.len(),
                r@.len() == i,
                forall|j: int| 0 <= j < i ==> #[trigger] r@[j] == buoc_spec(mv, da_sua@, ten_goc@[j]@),
            decreases ten_goc.len() - i,
        {
            let ten = ky_tu(ten_goc[i].as_str());
            let b = if la_thu_muc_exec(ten_goc[i].as_str()) {
                BuocGhi::BoQua
            } else {
                let mut k: usize = 0;
                let mut tim: Option<usize> = None;
                while k < da_sua.len() && tim.is_none()
                    invariant
                        mv == dsm(self.muc@),
                        forall|q: int| 0 <= q < da_sua@.len() ==> (#[trigger] da_sua@[q]) < self.muc@.len(),
                        k <= da_sua@.len(),
                        ten@ == ten_goc@[i as int]@,
                        tim is None ==> tim_sua(mv, da_sua@, ten@, 0) == tim_sua(mv, da_sua@, ten@, k as int),
                        tim matches Some(x) ==> tim_sua(mv, da_sua@, ten@, 0) == Some(x as int) && x < da_sua@.len(),
                    decreases da_sua.len() - k + (if tim is None { 1int } else { 0int }),
                {
                    let c = da_sua[k];
                    assert(mv[c as int] == self.muc@[c as int]@);
                    if bang_nhau(ky_tu(self.muc[c].ten.as_str()).as_slice(), ten.as_slice()) {
                        tim = Some(k);
                    } else {
                        k += 1;
                    }
                }
                match tim {
                    Some(x) => BuocGhi::NenLai(da_sua[x]),
                    None => BuocGhi::ChepTho,
                }
            };
            r.push(b);
            i += 1;
        }
        r
    }

    /// Ghi lại cuốn sách thành một file zip mới từ file gốc `goc`: mọi mục
    /// không phải thư mục, đúng thứ tự gốc; mục trong `da_sua` được nén lại với
    /// nội dung mới, những mục còn lại được chép thẳng khối nén cũ sang. Thành
    /// công khi file gốc đọc được trọn và [`ghi_duoc`]; `None` khi file gốc không
    /// đọc được trọn hay khi crate `zip` báo lỗi lúc ghi.
    pub fn ghi(&self, goc: &[u8], da_sua: &[usize]) -> (r: Option<Vec<u8>>)
        requires
            forall|k: int| 0 <= k < da_sua@.len() ==> (#[trigger] da_sua@[k]) < self.muc@.len(),
        ensures
            r matches Some(out) ==> (muc_zip_cua(goc@) matches Some(m) && doc_duoc_het(m) && muc_zip_cua(out@)
                == Some(ghi_spec(m, dsm(self.muc@), da_sua@))),
            (muc_zip_cua(goc@) matches Some(m) && doc_duoc_het(m) && ghi_duoc(goc@, m, dsm(self.muc@), da_sua@))
                ==> r is Some,
    {
        let n = match so_muc_zip(goc) {
            None => {
                return None;
            },
            Some(n) => n,
        };
        let ghost m = muc_zip_cua(goc@)->Some_0;
        let ghost mv = dsm(self.muc@);
        let mut ten_goc: Vec<String> = Vec::new();
        let mut i: usize = 0;
        while i < n
            invariant
                muc_zip_cua(goc@) == Some(m),
                n == m.len(),
                i <= n,
                ten_goc@.len() == i,
                forall|j: int| 0 <= j < i ==> (#[trigger] m[j]) is Some && ten_goc@[j]@ == m[j]->Some_0.0,
            decreases n - i,
        {
            match doc_muc_zip(goc, i) {
                None => {
                    assert(!doc_duoc_het(m));
                    return None;
                },
                Some(x) => {
                    let (ten, _tho, _noi_dung) = x;
                    ten_goc.push(ten);
                },
            }
            i += 1;
        }
        let kh = self.ke_hoach_ghi(&ten_goc, da_sua);
        assert(kh@ =~= ke_hoach_spec(m, mv, da_sua@));
        let mut w = tao_zip();
        let mut i: usize = 0;
        while i < n
            invariant
                muc_zip_cua(goc@) == Some(m),
                mv == dsm(self.muc@),
                n == m.len(),
                i <= n,
                ten_goc@.len() == n,
                kh@ == ke_hoach_spec(m, mv, da_sua@),
                forall|j: int| 0 <= j < n ==> (#[trigger] m[j]) is Some && ten_goc@[j]@ == m[j]->Some_0.0,
                forall|k: int| 0 <= k < da_sua@.len() ==> (#[trigger] da_sua@[k]) < self.muc@.len(),
                muc_da_ghi(w) == ket_qua_ghi(m, mv, kh@, i as int),
                ghi_duoc(goc@, m, mv, da_sua@) ==> dong_duoc(w),
            decreases n - i,
        {
            assert(m[i as int] is Some);
            assert(doc_duoc_het(m));
            proof {
                lemma_ket_qua_ten(m, mv, da_sua@, i as int);
                if ghi_duoc(goc@, m, mv, da_sua@) && !la_thu_muc(m[i as int]->Some_0.0) {
                    let kq = ket_qua_ghi(m, mv, kh@, i as int);
                    assert forall|q: int| 0 <= q < kq.len() implies (#[trigger] kq[q]) is Some && kq[q]->Some_0.0
                        != m[i as int]->Some_0.0 by {
                        assert(ten_tu(m, kq[q], i as int));
                        let j = choose|j: int|
                            0 <= j < i && !la_thu_muc(m[j]->Some_0.0) && #[trigger] m[j]->Some_0.0 == kq[q]->Some_0.0;
                        assert(m[j]->Some_0.0 != m[i as int]->Some_0.0);
                    }
                    assert(ten_moi(kq, m[i as int]->Some_0.0));
                }
            }
            match kh[i] {
                BuocGhi::BoQua => {},
                BuocGhi::ChepTho => {
                    if !chep_tho(&mut w, goc, i) {
                        return None;
                    }
                },
                BuocGhi::NenLai(c) => {
                    proof {
                        lemma_tim_sua(mv, da_sua@, m[i as int]->Some_0.0, 0);
                    }
                    assert(mv[c as int] == self.muc@[c as int]@);
                    let ghost cu = muc_da_ghi(w);
                    if !viet_muc(&mut w, ten_goc[i].as_str(), self.muc[c].noi_dung.as_slice(), NenKieu::Nen) {
                        return None;
                    }
                    assert(muc_da_ghi(w) =~= cu.push(muc_da_ghi(w).last()));
                },
            }
            i += 1;
        }
        assert(doc_duoc_het(m));
        xong_zip(w)
    }

    /// Các mục là văn bản sách — chỗ duy nhất được sửa. Nhận theo đuôi file
    /// (`.xhtml`, `.html`, `.htm`, không kể hoa thường), trừ mục lục.
    pub fn chi_so_van_ban(&self) -> (r: Vec<usize>)
        ensures
            r@ == chi_so_den(dsm(self.muc@), self.muc@.len() as int),
    {
        let ghost m = dsm(self.muc@);
        let mut r: Vec<usize> = Vec::new();
        let mut i: usize = 0;
        while i < self.muc.len()
            invariant
                i <= self.muc@.len(),
                m == dsm(self.muc@),
                r@ == chi_so_den(m, i as int),
            decreases self.muc.len() - i,
        {
            assert(m[i as int] == self.muc@[i as int]@);
            if la_van_ban_exec(self.muc[i].ten.as_str()) {
                r.push(i);
            }
            i += 1;
        }
        r
    }

    /// Các file nội dung cần soát; sách không có file nội dung nào thì bị từ
    /// chối, không soát và không ghi gì.
    pub fn van_ban_can_soat(&self) -> (r: Result<Vec<usize>, LoiNap>)
        ensures
            match r {
                Ok(v) => v@ == chi_so_den(dsm(self.muc@), self.muc@.len() as int) && v@.len() > 0,
                Err(l) => chi_so_den(dsm(self.muc@), self.muc@.len() as int).len() == 0 && l == LoiNap::KhongCoVanBan,
            },
    {
        let v = self.chi_so_van_ban();
        if v.len() == 0 {
            Err(LoiNap::KhongCoVanBan)
        } else {
            Ok(v)
        }
    }

    /// Nhan đề lấy từ OPF, chỉ để hiện trong báo cáo.
    pub fn nhan_de(&self) -> (r: Option<String>)
        ensures
            match r {
                Some(t) => nhan_de_spec(dsm(self.muc@)) == Some(t@),
                None => nhan_de_spec(dsm(self.muc@)) is None,
            },
    {
        let ghost m = dsm(self.muc@);
        proof {
            reveal_strlit(">");
            reveal_strlit("</");
        }
        let duoi = ky_tu(".opf");
        let mut i: usize = 0;
        let mut k: Option<usize> = None;
        while i < self.muc.len() && k.is_none()
            invariant
                i <= self.muc@.len(),
                m == dsm(self.muc@),
                m.len() == self.muc@.len(),
                duoi@ == ".opf"@,
                k is None ==> tim_opf(m, 0) == tim_opf(m, i as int),
                k matches Some(x) ==> tim_opf(m, 0) == Some(x as int),
            decreases self.muc.len() - i + (if k is None { 1int } else { 0int }),
        {
            assert(m[i as int] == self.muc@[i as int]@);
            let t = thuong_ascii_exec(self.muc[i].ten.as_str());
            if cuoi_la(duoi.as_slice(), t.as_slice()) {
                k = Some(i);
            } else {
                i += 1;
            }
        }
        let k = match k {
            Some(x) => x,
            None => {
                return None;
            },
        };
        proof {
            lemma_tim_opf(m, 0);
        }
        assert(m[k as int] == self.muc@[k as int]@);
        let s = ky_tu(doc_lossy(self.muc[k].noi_dung.as_slice()).as_str());
        let ghost sv = s@;
        let mo_dc = ky_tu("<dc:title");
        let mo_t = ky_tu("<title");
        let dau = match tim_chuoi_exec(s.as_slice(), mo_dc.as_slice()) {
            Some(d) => d,
            None => match tim_chuoi_exec(s.as_slice(), mo_t.as_slice()) {
                Some(d) => d,
                None => {
                    return None;
                },
            },
        };
        proof {
            crate::tach_chuoi::lemma_tim_chuoi(sv, "<dc:title"@, 0);
            crate::tach_chuoi::lemma_tim_chuoi(sv, "<title"@, 0);
        }
        let sau_dau = cat_doan(s.as_slice(), dau, s.len());
        assert(sau_dau@ =~= sv.skip(dau as int));
        let dong_the = ky_tu(">");
        let k1 = match tim_chuoi_exec(sau_dau.as_slice(), dong_the.as_slice()) {
            Some(x) => x,
            None => {
                return None;
            },
        };
        proof {
            crate::tach_chuoi::lemma_tim_chuoi(sv.skip(dau as int), ">"@, 0);
        }
        let mo = dau + k1 + 1;
        let sau_mo = cat_doan(s.as_slice(), mo, s.len());
        assert(sau_mo@ =~= sv.skip(mo as int));
        let the_dong = ky_tu("</");
        let k2 = match tim_chuoi_exec(sau_mo.as_slice(), the_dong.as_slice()) {
            Some(x) => x,
            None => {
                return None;
            },
        };
        proof {
            crate::tach_chuoi::lemma_tim_chuoi(sv.skip(mo as int), "</"@, 0);
        }
        let giua = cat_doan(s.as_slice(), mo, mo + k2);
        let gon = got_exec(giua.as_slice());
        let t = crate::thuc_the::giai_ma(chuoi(gon.as_slice()).as_str());
        if ky_tu(t.as_str()).len() == 0 {
            None
        } else {
            Some(t)
        }
    }
}

/// Điều kiện để chép được các mục `muc` vào một file zip mới: không tên nào là
/// tên thư mục, tên nào cũng vừa trường tên, các tên đôi một khác nhau, và nội
/// dung mục nào cũng dưới 1 GiB.
pub open spec fn ghi_moi_duoc(muc: Seq<MucV>) -> bool {
    &&& forall|i: int|
        0 <= i < muc.len() ==> !la_thu_muc((#[trigger] muc[i]).ten) && ten_vua(muc[i].ten) && noi_dung_vua(
            muc[i].noi_dung.len(),
        )
    &&& ten_rieng(muc)
}

/// Chép mọi mục vào một file zip mới, đúng thứ tự — dùng khi cần ghi mà không
/// còn file gốc. `mimetype` đứng đầu thì không nén, mọi mục khác được nén.
/// Thành công khi [`ghi_moi_duoc`]; `None` khi crate `zip` báo lỗi lúc ghi
/// (chẳng hạn hai mục trùng tên).
pub fn ghi_moi(muc: &[Muc]) -> (r: Option<Vec<u8>>)
    ensures
        r matches Some(out) ==> la_ban_ghi_moi(out@, dsm(muc@)),
        ghi_moi_duoc(dsm(muc@)) ==> r is Some,
{
    let ghost mv = dsm(muc@);
    let mut w = tao_zip();
    let mut i: usize = 0;
    while i < muc.len()
        invariant
            mv == dsm(muc@),
            i <= muc@.len(),
            muc_da_ghi(w).len() == i,
            forall|j: int|
                0 <= j < i && !la_thu_muc(mv[j].ten) ==> #[trigger] muc_da_ghi(w)[j] == Some(
                    (mv[j].ten, nen_spec(j, mv[j].ten) == NenKieu::LuuTho, mv[j].noi_dung),
                ),
            ghi_moi_duoc(mv) ==> dong_duoc(w),
        decreases muc.len() - i,
    {
        assert(mv[i as int] == muc@[i as int]@);
        let nen = phuong_phap_nen(i, muc[i].ten.as_str());
        let ghost cu = muc_da_ghi(w);
        proof {
            if ghi_moi_duoc(mv) {
                assert forall|k: int| 0 <= k < cu.len() implies (#[trigger] cu[k]) is Some && cu[k]->Some_0.0 != mv[i as int].ten by {
                    assert(!la_thu_muc(mv[k].ten));
                    assert(cu[k] == Some((mv[k].ten, nen_spec(k, mv[k].ten) == NenKieu::LuuTho, mv[k].noi_dung)));
                    assert(mv[k].ten != mv[i as int].ten);
                }
                assert(ten_moi(cu, mv[i as int].ten));
            }
        }
        if !viet_muc(&mut w, muc[i].ten.as_str(), muc[i].noi_dung.as_slice(), nen) {
            return None;
        }
        assert forall|j: int|
            0 <= j < i + 1 && !la_thu_muc(mv[j].ten) implies #[trigger] muc_da_ghi(w)[j] == Some(
                (mv[j].ten, nen_spec(j, mv[j].ten) == NenKieu::LuuTho, mv[j].noi_dung),
            ) by {
            if j < i {
                assert(muc_da_ghi(w)[j] == muc_da_ghi(w).take(cu.len() as int)[j]);
            }
        }
        i += 1;
    }
    xong_zip(w)
}

/// Nội dung một mục đọc thành chữ: bỏ dấu thứ tự byte UTF-8 ở đầu nếu có, rồi
/// giải mã UTF-8; `None` khi phần còn lại không phải UTF-8 hợp lệ.
pub open spec fn doc_chuoi_spec(b: Seq<u8>) -> Option<Seq<char>> {
    let c = if b.len() >= 3 && b[0] == 0xEFu8 && b[1] == 0xBBu8 && b[2] == 0xBFu8 {
        b.skip(3)
    } else {
        b
    };
    if valid_utf8(c) {
        Some(decode_utf8(c))
    } else {
        None
    }
}

/// Đọc nội dung một mục thành chuỗi UTF-8, bỏ dấu thứ tự byte nếu có. Trả `None`
/// khi file không phải UTF-8 hợp lệ.
pub fn doc_chuoi(byte: &[u8]) -> (r: Option<String>)
    ensures
        match r {
            Some(s) => doc_chuoi_spec(byte@) == Some(s@),
            None => doc_chuoi_spec(byte@) is None,
        },
{
    let bom = byte.len() >= 3 && byte[0] == 0xEFu8 && byte[1] == 0xBBu8 && byte[2] == 0xBFu8;
    let dau: usize = if bom { 3 } else { 0 };
    let mut v: Vec<u8> = Vec::new();
    let mut i: usize = dau;
    while i < byte.len()
        invariant
            dau <= i <= byte@.len(),
            v@ == byte@.subrange(dau as int, i as int),
        decreases byte.len() - i,
    {
        v.push(byte[i]);
        assert(byte@.subrange(dau as int, i + 1) =~= byte@.subrange(dau as int, i as int).push(byte@[i as int]));
        i += 1;
    }
    assert(v@ =~= (if bom { byte@.skip(3) } else { byte@ }));
    tu_utf8(v)
}

} // verus!
