//! Điều phối các tầng dò lỗi trên một đoạn văn, và những gì đếm được từ chính
//! cuốn sách (tên riêng, cụm tên riêng, vốn từ).
//!
//! **Thứ tự các tầng không đổi chỗ được.** Chuẩn hoá Unicode chạy trước mọi
//! thứ; dọn khoảng trắng chạy **sau** dấu câu. Mỗi tầng nhận chuỗi và trả về
//! danh sách phép sửa trên chính chuỗi ấy, rồi bộ điều phối áp xong mới chạy
//! tầng sau.
use vstd::prelude::*;
use std::ops::Range;
use crate::chuoi::{bang_nhau, bang_vi_tri, cat_doan, chuoi, ky_tu, lemma_vt_byte_tang, noi, vt_byte};
use crate::hoa_thuong::{chuoi_thuong, hoa, la_hoa, la_trang, thuong_cua, trang};
use crate::tach_chuoi::manh_tu;
use crate::sua::{DoChac, Loai, SuaDoi, SuaDoiV};
use crate::bang_chu::BangChu;
use crate::tach_tu::{cat_chi_so, cat_spec, dang_tu, dang_tu_spec, DangTu};
use crate::tu_dien::{co_am_tiet_spec, TuDien};
use std::collections::HashSet;
use std::collections::hash_map::DefaultHasher;
use std::hash::Hasher;
use vstd::std_specs::hash::DefaultHasherAdditionalSpecFns;
use crate::chuan_hoa::{dau_cau_spec, khoang_trang_spec, nfc_cua, unicode_den, CaiDat};
use crate::dau_thanh::{soat_den, Kieu};
use crate::doi_chieu::{ap_khac, dsk, so_manh, vi_tri_dung, KhacV};
use crate::sua::{dsv, sap_xep, ap_spec, doan_byte};

verus! {

/// Vì sao một chỗ ngờ **không cần hỏi mô hình**.
///
/// Mỗi loại ở đây là một sự thật về tiếng Việt, không phải một ước lượng.
#[derive(Debug, Clone, Copy, PartialEq, Eq, Structural, Default)]
pub enum BangChung {
    /// Không có gì dứt khoát — phải hỏi mô hình, hoặc để ngỏ.
    #[default]
    Khong,
    /// Chính chữ ấy có trong bảng typo hay gặp, và bảng chỉ ghi một đáp án.
    Typo,
    /// Ứng viên đầu bảng dựng lại được một cụm trong từ điển riêng của sách.
    CumTenRieng,
    /// Ứng viên đầu bảng ghép được với chữ bên cạnh thành từ có trong từ điển.
    TuGhep,
    /// Ứng viên đầu bảng chỉ thêm đúng một dấu phụ, và là từ có thật.
    DauPhu,
    /// Hai tiếng dính liền, và cách chia dứt khoát.
    TachDinh,
}

/// Mô tả ngắn của từng loại bằng chứng; `None` nghĩa là phải hỏi mô hình.
pub open spec fn mo_ta_spec(b: BangChung) -> Option<Seq<char>> {
    match b {
        BangChung::Khong => None,
        BangChung::Typo => Some("typo hay gặp"@),
        BangChung::CumTenRieng => Some("cụm tên riêng của sách"@),
        BangChung::TuGhep => Some("từ ghép trong từ điển"@),
        BangChung::DauPhu => Some("chỉ thêm một dấu phụ"@),
        BangChung::TachDinh => Some("hai tiếng dính liền"@),
    }
}

impl BangChung {
    /// Mô tả ngắn cho nhật ký. `None` nghĩa là phải hỏi mô hình.
    pub fn mo_ta(self) -> (r: Option<&'static str>)
        ensures
            r is Some <==> mo_ta_spec(self) is Some,
            r matches Some(x) ==> mo_ta_spec(self) == Some(x@),
    {
        match self {
            BangChung::Khong => None,
            BangChung::Typo => Some("typo hay gặp"),
            BangChung::CumTenRieng => Some("cụm tên riêng của sách"),
            BangChung::TuGhep => Some("từ ghép trong từ điển"),
            BangChung::DauPhu => Some("chỉ thêm một dấu phụ"),
            BangChung::TachDinh => Some("hai tiếng dính liền"),
        }
    }
}

/// Một chỗ ngờ ở dạng toán học.
pub struct ChoXetV {
    pub dau: nat,
    pub cuoi: nat,
    pub goc: Seq<char>,
    pub ung_vien: Seq<Seq<char>>,
    pub loai: Loai,
    pub ly_do: Seq<char>,
    pub bang_chung: BangChung,
}

/// Một chỗ bộ dò không tự quyết được — phải hỏi mô hình ngôn ngữ.
#[derive(Debug)]
pub struct ChoXet {
    /// Vị trí trong chuỗi **kết quả** của [`KetQua::chu`].
    pub pham_vi: Range<usize>,
    pub goc: String,
    /// Các cách sửa, đã xếp hạng sơ bộ. Bản gốc **không** nằm trong đây.
    pub ung_vien: Vec<String>,
    pub loai: Loai,
    pub ly_do: String,
    /// Bằng chứng đủ mạnh để áp thẳng ứng viên đầu bảng, nếu có.
    pub bang_chung: BangChung,
}

impl View for ChoXet {
    type V = ChoXetV;

    open spec fn view(&self) -> ChoXetV {
        ChoXetV {
            dau: self.pham_vi.start as nat,
            cuoi: self.pham_vi.end as nat,
            goc: self.goc@,
            ung_vien: self.ung_vien@.map_values(|s: String| s@),
            loai: self.loai,
            ly_do: self.ly_do@,
            bang_chung: self.bang_chung,
        }
    }
}

/// Kết quả soát một đoạn: chữ sau khi sửa, các phép sửa đã áp, các chỗ ngờ.
#[derive(Debug)]
pub struct KetQua {
    pub chu: String,
    pub da_sua: Vec<SuaDoi>,
    pub cho_xet: Vec<ChoXet>,
}

impl Default for KetQua {
    fn default() -> (r: Self)
        ensures
            r.chu@ == Seq::<char>::empty(),
            r.da_sua@.len() == 0,
            r.cho_xet@.len() == 0,
    {
        KetQua { chu: String::new(), da_sua: Vec::new(), cho_xet: Vec::new() }
    }
}

/// Cách hỏi mô hình.
#[derive(Debug, Clone, Copy, PartialEq, Eq, Structural, Default)]
pub enum KieuCham {
    /// Thay ứng viên vào rồi chấm **cả câu chứa nó**, so với câu gốc. Mặc định.
    #[default]
    CaCau,
    /// Khoét chữ sai thành **chỗ trống**, đưa mô hình hai câu trước và hai câu
    /// sau, rồi chấm riêng phần điền vào cùng phần đuôi đi kèm.
    ChoTrong,
}

/// Hai đoạn văn kề bên đoạn đang soát, dùng làm ngữ cảnh cho lối chấm chỗ trống.
#[derive(Debug, Clone, Copy)]
pub struct NguCanh<'a> {
    pub truoc: &'a str,
    pub sau: &'a str,
}

impl<'a> Default for NguCanh<'a> {
    fn default() -> (r: Self)
        ensures
            r.truoc@ == Seq::<char>::empty(),
            r.sau@ == Seq::<char>::empty(),
    {
        let r = NguCanh { truoc: "", sau: "" };
        proof {
            reveal_strlit("");
        }
        r
    }
}

/// Nhãn loại lỗi suy từ cách sửa đã chọn: có khoảng trắng nghĩa là đã tách chữ.
pub open spec fn nhan_theo_spec(loai: Loai, da_chon: Seq<char>) -> Loai {
    if loai != Loai::DinhChu && loai != Loai::AmTietSai {
        loai
    } else if da_chon.contains(' ') {
        Loai::DinhChu
    } else {
        Loai::AmTietSai
    }
}

/// Nhãn loại lỗi theo cách sửa đã chọn.
pub fn nhan_theo(loai: Loai, da_chon: &str) -> (r: Loai)
    ensures
        r == nhan_theo_spec(loai, da_chon@),
{
    if loai != Loai::DinhChu && loai != Loai::AmTietSai {
        return loai;
    }
    let v = ky_tu(da_chon);
    if crate::chuoi::co_ky_tu(v.as_slice(), ' ') {
        Loai::DinhChu
    } else {
        Loai::AmTietSai
    }
}

/// Ký tự đầu tiên của dạng viết thường của `c` (hoặc chính `c`).
pub open spec fn thuong_dau(c: char) -> char {
    if thuong_ky_tu_len(c) > 0 {
        crate::hoa_thuong::thuong_ky_tu(c)[0]
    } else {
        c
    }
}

/// Số ký tự của dạng viết thường của `c`.
pub open spec fn thuong_ky_tu_len(c: char) -> nat {
    crate::hoa_thuong::thuong_ky_tu(c).len()
}

/// Ứng viên `moi` có **giữ nguyên phụ âm đầu** của `goc` không: khác số chữ thì
/// coi như giữ (gõ thừa, gõ hụt); cùng chữ cái nền (`u`/`ư`, `o`/`ô`/`ơ`) thì
/// giữ; hai chữ đầu đều là nguyên âm thì cũng không phải chuyện phụ âm đầu.
pub open spec fn giu_phu_am_dau_spec(goc: Seq<char>, moi: Seq<char>) -> bool {
    if goc.len() != moi.len() || goc.len() == 0 {
        true
    } else {
        let a = goc[0];
        let b = moi[0];
        crate::ung_vien::nen_chu(a) == crate::ung_vien::nen_chu(b) || (crate::am_tiet::la_nguyen_am_spec(
            thuong_dau(a),
        ) && crate::am_tiet::la_nguyen_am_spec(thuong_dau(b)))
    }
}

fn thuong_dau_exec(c: char) -> (r: char)
    ensures
        r == thuong_dau(c),
{
    let t = crate::hoa_thuong::ky_tu_thuong(c);
    if t.len() > 0 {
        t[0]
    } else {
        c
    }
}

/// Ứng viên có giữ nguyên phụ âm đầu không.
pub fn giu_phu_am_dau(goc: &str, moi: &str) -> (r: bool)
    ensures
        r == giu_phu_am_dau_spec(goc@, moi@),
{
    let a = ky_tu(goc);
    let b = ky_tu(moi);
    if a.len() != b.len() || a.len() == 0 {
        return true;
    }
    crate::ung_vien::cung_chu_cai(a[0], b[0]) || (crate::am_tiet::la_nguyen_am(thuong_dau_exec(a[0]))
        && crate::am_tiet::la_nguyen_am(thuong_dau_exec(b[0])))
}

/// Thay khoảng byte `r` của `goc` bằng `moi`.
pub open spec fn thay_mot_cho_spec(goc: Seq<char>, a: int, b: int, moi: Seq<char>) -> Seq<char> {
    goc.subrange(0, crate::sua::chi_so(goc, a)) + moi + goc.subrange(crate::sua::chi_so(goc, b), goc.len() as int)
}

/// Thay khoảng byte `r` (nằm trên ranh giới ký tự) của `goc` bằng `moi`.
pub fn thay_mot_cho(goc: &str, r: &Range<usize>, moi: &str) -> (kq: String)
    requires
        r.start <= r.end,
        crate::sua::ranh_gioi(goc@, r.start as int),
        crate::sua::ranh_gioi(goc@, r.end as int),
    ensures
        kq@ == thay_mot_cho_spec(goc@, r.start as int, r.end as int, moi@),
{
    let v = ky_tu(goc);
    let b = bang_vi_tri(goc);
    let a = crate::sua::chi_so_exec(&b, r.start, Ghost(goc@));
    let e = crate::sua::chi_so_exec(&b, r.end, Ghost(goc@));
    let dau = cat_doan(v.as_slice(), 0, a);
    let cuoi = cat_doan(v.as_slice(), e, v.len());
    chuoi(noi(&noi(&dau, &ky_tu(moi)), &cuoi).as_slice())
}


/// Ký tự có thể là ranh giới câu.
pub open spec fn ket_cau_spec(c: char) -> bool {
    c == '.' || c == '!' || c == '?' || c == '…' || c == '\n'
}

/// Ký tự được phép nằm giữa dấu kết câu và chữ đầu câu sau.
pub open spec fn sau_ket_cau_spec(c: char) -> bool {
    la_trang(c) || c == '”' || c == '"' || c == '»' || c == '’' || c == '\'' || c == ')'
}

/// Dấu đóng có thể dính ngay sau dấu kết câu.
pub open spec fn dau_dong_spec(c: char) -> bool {
    c == '”' || c == '"' || c == '»' || c == '’'
}

fn ket_cau(c: char) -> (r: bool)
    ensures
        r == ket_cau_spec(c),
{
    c == '.' || c == '!' || c == '?' || c == '…' || c == '\n'
}

fn sau_ket_cau(c: char) -> (r: bool)
    ensures
        r == sau_ket_cau_spec(c),
{
    trang(c) || c == '”' || c == '"' || c == '»' || c == '’' || c == '\'' || c == ')'
}

fn dau_dong(c: char) -> (r: bool)
    ensures
        r == dau_dong_spec(c),
{
    c == '”' || c == '"' || c == '»' || c == '’'
}

/// Bỏ các ký tự khoảng trắng/dấu đóng ở đầu đoạn `s[d..t]`.
pub open spec fn bo_sau_ket(s: Seq<char>, d: int, t: int) -> int
    decreases t - d,
{
    if d < 0 || d >= t || d >= s.len() || !sau_ket_cau_spec(s[d]) {
        d
    } else {
        bo_sau_ket(s, d + 1, t)
    }
}

/// Lùi từ ký tự thứ `k` về đầu, đếm ranh giới câu: `con` ranh giới còn phải
/// qua, `ke_sau` là ký tự vừa xét (đứng sau `s[k]`), `trong` cho biết ký tự ấy
/// thuộc một cụm ranh giới. Một cụm dấu liền nhau tính là **một** ranh giới; dấu
/// chấm chỉ là ranh giới khi sau nó là khoảng trắng hay dấu đóng.
pub open spec fn lui_tu(s: Seq<char>, t: int, k: int, con: nat, ke_sau: Option<char>, trong: bool) -> int
    decreases k + 1,
{
    if k < 0 || k >= s.len() {
        0
    } else {
        let c = s[k];
        let la_ranh = ket_cau_spec(c) && (c == '\n' || match ke_sau {
            None => true,
            Some(x) => sau_ket_cau_spec(x),
        });
        if la_ranh && !trong && con <= 1 {
            bo_sau_ket(s, k + 1, t)
        } else {
            lui_tu(
                s,
                t,
                k - 1,
                if la_ranh && !trong { (con - 1) as nat } else { con },
                Some(c),
                la_ranh || (trong && sau_ket_cau_spec(c)),
            )
        }
    }
}

proof fn lemma_bo_sau_ket(s: Seq<char>, d: int, t: int)
    requires
        0 <= d <= t <= s.len(),
    ensures
        d <= bo_sau_ket(s, d, t) <= t,
    decreases t - d,
{
    if d < t && sau_ket_cau_spec(s[d]) {
        lemma_bo_sau_ket(s, d + 1, t);
    }
}

proof fn lemma_lui_tu(s: Seq<char>, t: int, k: int, con: nat, ke_sau: Option<char>, trong: bool)
    requires
        0 <= t <= s.len(),
        k < t,
    ensures
        0 <= lui_tu(s, t, k, con, ke_sau, trong) <= t,
    decreases k + 1,
{
    if 0 <= k {
        let c = s[k];
        let la_ranh = ket_cau_spec(c) && (c == '\n' || match ke_sau {
            None => true,
            Some(x) => sau_ket_cau_spec(x),
        });
        if la_ranh && !trong && con <= 1 {
            lemma_bo_sau_ket(s, k + 1, t);
        } else {
            lemma_lui_tu(
                s,
                t,
                k - 1,
                if la_ranh && !trong { (con - 1) as nat } else { con },
                Some(c),
                la_ranh || (trong && sau_ket_cau_spec(c)),
            );
        }
    }
}

fn lui_ky_tu(v: &Vec<char>, t: usize, so_cau: usize) -> (r: usize)
    requires
        t <= v@.len(),
        so_cau >= 1,
    ensures
        r as int == lui_tu(v@, t as int, t - 1, so_cau as nat, None, false),
        r <= t,
{
    let ghost s = v@;
    proof {
        lemma_lui_tu(s, t as int, t - 1, so_cau as nat, None, false);
    }
    let mut con = so_cau;
    let mut ke_sau: Option<char> = None;
    let mut trong = false;
    let mut k = t;
    while k > 0
        invariant
            k <= t <= s.len(),
            v@ == s,
            con >= 1,
            lui_tu(s, t as int, t - 1, so_cau as nat, None, false) == lui_tu(s, t as int, k - 1, con as nat, ke_sau, trong),
        decreases k,
    {
        let c = v[k - 1];
        let la_ranh = ket_cau(c) && (c == '\n' || match ke_sau {
            None => true,
            Some(x) => sau_ket_cau(x),
        });
        if la_ranh && !trong {
            if con == 1 {
                let mut dau = k;
                while dau < t && sau_ket_cau(v[dau])
                    invariant
                        k <= dau <= t <= s.len(),
                        v@ == s,
                        bo_sau_ket(s, k as int, t as int) == bo_sau_ket(s, dau as int, t as int),
                    decreases t - dau,
                {
                    dau += 1;
                }
                return dau;
            }
            con -= 1;
        }
        trong = la_ranh || (trong && sau_ket_cau(c));
        ke_sau = Some(c);
        k -= 1;
    }
    0
}

/// Chỉ số đầu tiên từ `j` trở đi không phải dấu đóng.
pub open spec fn het_dau_dong(s: Seq<char>, j: int) -> int
    decreases s.len() - j,
{
    if j < 0 || j >= s.len() || !dau_dong_spec(s[j]) {
        j
    } else {
        het_dau_dong(s, j + 1)
    }
}

/// Chỉ số đầu tiên từ `j` trở đi không phải khoảng trắng.
pub open spec fn het_trang_tu(s: Seq<char>, j: int) -> int
    decreases s.len() - j,
{
    if j < 0 || j >= s.len() || !la_trang(s[j]) {
        j
    } else {
        het_trang_tu(s, j + 1)
    }
}

/// Dải dấu mở đầu dòng tìm từ `j` nằm trong chuỗi.
pub proof fn lemma_het_dau_dong(s: Seq<char>, j: int)
    requires
        0 <= j <= s.len(),
    ensures
        j <= het_dau_dong(s, j) <= s.len(),
    decreases s.len() - j,
{
    if j < s.len() && dau_dong_spec(s[j]) {
        lemma_het_dau_dong(s, j + 1);
    }
}

/// Dải khoảng trắng tìm từ `j` nằm trong chuỗi.
pub proof fn lemma_het_trang_tu(s: Seq<char>, j: int)
    requires
        0 <= j <= s.len(),
    ensures
        j <= het_trang_tu(s, j) <= s.len(),
    decreases s.len() - j,
{
    if j < s.len() && la_trang(s[j]) {
        lemma_het_trang_tu(s, j + 1);
    }
}

/// Tiến từ ký tự thứ `k`, đếm ranh giới câu; `vt` là chỗ kết thúc tính tới giờ.
/// Dấu đóng dính ngay sau dấu chấm thuộc về câu ấy (`.”`).
pub open spec fn tien_tu(s: Seq<char>, k: int, con: nat, vt: int) -> int
    decreases s.len() - k,
{
    if k < 0 || k >= s.len() {
        vt
    } else {
        let c = s[k];
        if !ket_cau_spec(c) || (c != '\n' && k + 1 < s.len() && !sau_ket_cau_spec(s[k + 1])) {
            tien_tu(s, k + 1, con, k + 1)
        } else {
            let j = het_dau_dong(s, k + 1);
            proof {
                lemma_het_dau_dong(s, k + 1);
                lemma_het_trang_tu(s, j);
            }
            if con <= 1 {
                j
            } else {
                tien_tu(s, het_trang_tu(s, j), (con - 1) as nat, j)
            }
        }
    }
}

proof fn lemma_tien_tu(s: Seq<char>, k: int, con: nat, vt: int)
    requires
        0 <= k <= s.len(),
        vt <= k,
        0 <= vt,
    ensures
        vt <= tien_tu(s, k, con, vt) <= s.len(),
    decreases s.len() - k,
{
    if k < s.len() {
        let c = s[k];
        if !ket_cau_spec(c) || (c != '\n' && k + 1 < s.len() && !sau_ket_cau_spec(s[k + 1])) {
            lemma_tien_tu(s, k + 1, con, k + 1);
        } else {
            let j = het_dau_dong(s, k + 1);
            lemma_het_dau_dong(s, k + 1);
            lemma_het_trang_tu(s, j);
            if con > 1 {
                lemma_tien_tu(s, het_trang_tu(s, j), (con - 1) as nat, j);
            }
        }
    }
}

fn tien_ky_tu(v: &Vec<char>, t: usize, so_cau: usize) -> (r: usize)
    requires
        t <= v@.len(),
        so_cau >= 1,
    ensures
        r as int == tien_tu(v@, t as int, so_cau as nat, t as int),
        t <= r <= v@.len(),
{
    let ghost s = v@;
    proof {
        lemma_tien_tu(s, t as int, so_cau as nat, t as int);
    }
    let n = v.len();
    let mut con = so_cau;
    let mut vt = t;
    let mut k = t;
    while k < n
        invariant
            t <= vt <= k <= n,
            n == s.len(),
            v@ == s,
            con >= 1,
            tien_tu(s, t as int, so_cau as nat, t as int) == tien_tu(s, k as int, con as nat, vt as int),
        decreases n - k,
    {
        let c = v[k];
        vt = k + 1;
        if !ket_cau(c) || (c != '\n' && k + 1 < n && !sau_ket_cau(v[k + 1])) {
            k += 1;
        } else {
            let mut j = k + 1;
            proof {
                lemma_het_dau_dong(s, k + 1);
            }
            while j < n && dau_dong(v[j])
                invariant
                    k < j <= n,
                    n == s.len(),
                    v@ == s,
                    het_dau_dong(s, k + 1) == het_dau_dong(s, j as int),
                decreases n - j,
            {
                j += 1;
            }
            vt = j;
            if con == 1 {
                return vt;
            }
            con -= 1;
            let mut m = j;
            proof {
                lemma_het_trang_tu(s, j as int);
            }
            while m < n && trang(v[m])
                invariant
                    j <= m <= n,
                    n == s.len(),
                    v@ == s,
                    het_trang_tu(s, j as int) == het_trang_tu(s, m as int),
                decreases n - m,
            {
                m += 1;
            }
            k = m;
        }
    }
    vt
}

/// Lùi `so_cau` ranh giới câu từ vị trí byte `tu`, trả về chỗ bắt đầu chữ.
pub fn lui_cau(s: &str, tu: usize, so_cau: usize) -> (r: usize)
    requires
        crate::sua::ranh_gioi(s@, tu as int),
        so_cau >= 1,
    ensures
        r == vt_byte(
            s@,
            lui_tu(
                s@,
                crate::sua::chi_so(s@, tu as int),
                crate::sua::chi_so(s@, tu as int) - 1,
                so_cau as nat,
                None,
                false,
            ),
        ),
{
    let v = ky_tu(s);
    let b = bang_vi_tri(s);
    let t = crate::sua::chi_so_exec(&b, tu, Ghost(s@));
    let k = lui_ky_tu(&v, t, so_cau);
    b[k]
}

/// Tiến `so_cau` ranh giới câu từ vị trí byte `tu`, trả về chỗ kết thúc.
pub fn tien_cau(s: &str, tu: usize, so_cau: usize) -> (r: usize)
    requires
        crate::sua::ranh_gioi(s@, tu as int),
        so_cau >= 1,
    ensures
        r == vt_byte(
            s@,
            tien_tu(s@, crate::sua::chi_so(s@, tu as int), so_cau as nat, crate::sua::chi_so(s@, tu as int)),
        ),
{
    let v = ky_tu(s);
    let b = bang_vi_tri(s);
    let t = crate::sua::chi_so_exec(&b, tu, Ghost(s@));
    let k = tien_ky_tu(&v, t, so_cau);
    b[k]
}


/// Dấu kết câu nhận bằng một byte: `.`, `!`, `?`.
pub open spec fn la_cham(c: char) -> bool {
    c == '.' || c == '!' || c == '?'
}

/// Chỗ mở đầu câu chứa ký tự thứ `k + 1`: ngay sau dấu kết câu gần nhất (về
/// trước) có khoảng trắng theo sau, tính bằng byte.
pub open spec fn dau_cau_lui(s: Seq<char>, k: int) -> int
    decreases k + 1,
{
    if k < 0 || k >= s.len() {
        0
    } else if la_cham(s[k]) && k + 1 < s.len() && s[k + 1] == ' ' {
        vt_byte(s, k) as int + 2
    } else {
        dau_cau_lui(s, k - 1)
    }
}

/// Chỗ kết thúc câu: ngay sau dấu kết câu đầu tiên từ ký tự thứ `k`, tính bằng
/// byte; không có thì cuối văn bản.
pub open spec fn cuoi_cau_tien(s: Seq<char>, k: int) -> int
    decreases s.len() - k,
{
    if k < 0 || k >= s.len() {
        vt_byte(s, s.len() as int) as int
    } else if la_cham(s[k]) {
        vt_byte(s, k) as int + 1
    } else {
        cuoi_cau_tien(s, k + 1)
    }
}

/// Ký tự đầu tiên (từ chỉ số `k`) bắt đầu ở byte không nhỏ hơn `x`.
pub open spec fn nho_nhat(s: Seq<char>, x: int, k: int) -> int
    decreases s.len() - k,
{
    if k < 0 || k >= s.len() || vt_byte(s, k) >= x {
        k
    } else {
        nho_nhat(s, x, k + 1)
    }
}

/// Ký tự cuối cùng (từ chỉ số `k` lùi về) bắt đầu ở byte không lớn hơn `x`.
pub open spec fn lon_nhat(s: Seq<char>, x: int, k: int) -> int
    decreases k,
{
    if k <= 0 || k > s.len() || vt_byte(s, k) <= x {
        k
    } else {
        lon_nhat(s, x, k - 1)
    }
}

proof fn lemma_nho_nhat(s: Seq<char>, x: int, k: int, m: int)
    requires
        0 <= k <= m <= s.len(),
        vt_byte(s, m) >= x,
    ensures
        k <= nho_nhat(s, x, k) <= m,
    decreases s.len() - k,
{
    if k < s.len() && vt_byte(s, k) < x {
        lemma_nho_nhat(s, x, k + 1, m);
    }
}

proof fn lemma_lon_nhat(s: Seq<char>, x: int, k: int, m: int)
    requires
        0 <= m <= k <= s.len(),
        vt_byte(s, m) <= x,
    ensures
        m <= lon_nhat(s, x, k) <= k,
    decreases k,
{
    if k > 0 && vt_byte(s, k) > x {
        lemma_lon_nhat(s, x, k - 1, m);
    }
}

/// Khoảng byte của câu chứa khoảng `[a, b)`, cắt còn khoảng 400 byte quanh chỗ
/// sửa khi câu dài quá.
pub open spec fn cau_chua_spec(s: Seq<char>, a: int, b: int) -> (int, int) {
    let d0 = dau_cau_lui(s, crate::sua::chi_so(s, a) - 1);
    let c0 = cuoi_cau_tien(s, crate::sua::chi_so(s, b));
    if c0 - d0 > 400 {
        let d1 = if d0 >= (if a >= 200 { a - 200 } else { 0 }) { d0 } else { if a >= 200 { a - 200 } else { 0 } };
        let c1 = if c0 <= b + 200 { c0 } else { b + 200 };
        (
            vt_byte(s, nho_nhat(s, d1, 0)) as int,
            vt_byte(s, lon_nhat(s, c1, s.len() as int)) as int,
        )
    } else {
        (d0, c0)
    }
}

/// Khoảng của câu chứa `r`. Ranh giới câu nhận bằng `.`, `!`, `?` có khoảng
/// trắng theo sau — thô, nhưng **ổn định**: cùng một chỗ sửa thì bản gốc và
/// mọi ứng viên được cắt ra cùng một cửa sổ.
pub fn cau_chua(chu: &str, r: &Range<usize>) -> (kq: Range<usize>)
    requires
        r.start <= r.end,
        r.end + 200 <= usize::MAX,
        crate::sua::ranh_gioi(chu@, r.start as int),
        crate::sua::ranh_gioi(chu@, r.end as int),
    ensures
        (kq.start as int, kq.end as int) == cau_chua_spec(chu@, r.start as int, r.end as int),
{
    let ghost s = chu@;
    let v = ky_tu(chu);
    let b = bang_vi_tri(chu);
    let n = v.len();
    let ka = crate::sua::chi_so_exec(&b, r.start, Ghost(s));
    let kb = crate::sua::chi_so_exec(&b, r.end, Ghost(s));
    proof {
        lemma_vt_byte_tang(s, 0, n as int);
        assert(s.take(0) =~= Seq::<char>::empty());
    }
    let nb = b[n];
    let dau = dau_cau_exec(&v, &b, ka, Ghost(s));
    let cuoi = cuoi_cau_exec(&v, &b, kb, Ghost(s));
    if cuoi > dau && cuoi - dau > 400 {
        let duoi = if r.start >= 200 { r.start - 200 } else { 0 };
        let d1 = if dau >= duoi { dau } else { duoi };
        let c1 = if cuoi <= r.end + 200 { cuoi } else { r.end + 200 };
        proof {
            lemma_vt_byte_tang(s, ka as int, n as int);
            lemma_nho_nhat(s, d1 as int, 0, n as int);
            lemma_lon_nhat(s, c1 as int, n as int, 0);
        }
        let mut p: usize = 0;
        while p < n && b[p] < d1
            invariant
                p <= n,
                n == s.len(),
                b@.len() == s.len() + 1,
                forall|q: int| 0 <= q <= s.len() ==> #[trigger] b@[q] == vt_byte(s, q),
                nho_nhat(s, d1 as int, 0) == nho_nhat(s, d1 as int, p as int),
            decreases n - p,
        {
            p += 1;
        }
        let mut q: usize = n;
        while q > 0 && b[q] > c1
            invariant
                q <= n,
                n == s.len(),
                b@.len() == s.len() + 1,
                forall|t: int| 0 <= t <= s.len() ==> #[trigger] b@[t] == vt_byte(s, t),
                lon_nhat(s, c1 as int, n as int) == lon_nhat(s, c1 as int, q as int),
            decreases q,
        {
            q -= 1;
        }
        b[p]..b[q]
    } else {
        dau..cuoi
    }
}

fn dau_cau_exec(v: &Vec<char>, b: &Vec<usize>, ka: usize, Ghost(s): Ghost<Seq<char>>) -> (r: usize)
    requires
        ka <= s.len(),
        v@ == s,
        b@.len() == s.len() + 1,
        forall|q: int| 0 <= q <= s.len() ==> #[trigger] b@[q] == vt_byte(s, q),
    ensures
        r as int == dau_cau_lui(s, ka - 1),
        r <= vt_byte(s, s.len() as int),
{
    let n = v.len();
    let mut k = ka;
    while k > 0
        invariant
            k <= ka <= n,
            n == s.len(),
            v@ == s,
            b@.len() == s.len() + 1,
            forall|q: int| 0 <= q <= s.len() ==> #[trigger] b@[q] == vt_byte(s, q),
            dau_cau_lui(s, ka - 1) == dau_cau_lui(s, k - 1),
        decreases k,
    {
        let c = v[k - 1];
        if (c == '.' || c == '!' || c == '?') && k < n && v[k] == ' ' {
            proof {
                lemma_vt_byte_buoc_hai(s, k - 1);
            }
            assert(b@[k + 1] == vt_byte(s, k + 1));
            return b[k - 1] + 2;
        }
        k -= 1;
    }
    0
}

fn cuoi_cau_exec(v: &Vec<char>, b: &Vec<usize>, kb: usize, Ghost(s): Ghost<Seq<char>>) -> (r: usize)
    requires
        kb <= s.len(),
        v@ == s,
        b@.len() == s.len() + 1,
        forall|q: int| 0 <= q <= s.len() ==> #[trigger] b@[q] == vt_byte(s, q),
    ensures
        r as int == cuoi_cau_tien(s, kb as int),
{
    let n = v.len();
    let mut k = kb;
    while k < n
        invariant
            kb <= k <= n,
            n == s.len(),
            v@ == s,
            b@.len() == s.len() + 1,
            forall|q: int| 0 <= q <= s.len() ==> #[trigger] b@[q] == vt_byte(s, q),
            cuoi_cau_tien(s, kb as int) == cuoi_cau_tien(s, k as int),
        decreases n - k,
    {
        let c = v[k];
        if c == '.' || c == '!' || c == '?' {
            proof {
                crate::chuoi::lemma_vt_byte_buoc(s, k as int);
                crate::chuoi::lemma_do_dai_byte(c);
            }
            assert(b@[k + 1] == vt_byte(s, k + 1));
            return b[k] + 1;
        }
        k += 1;
    }
    b[n]
}

proof fn lemma_vt_byte_buoc_hai(s: Seq<char>, k: int)
    requires
        0 <= k,
        k + 1 < s.len(),
        la_cham(s[k]),
        s[k + 1] == ' ',
    ensures
        vt_byte(s, k + 2) == vt_byte(s, k) + 2,
        vt_byte(s, k + 2) <= vt_byte(s, s.len() as int),
{
    crate::chuoi::lemma_vt_byte_buoc(s, k);
    crate::chuoi::lemma_vt_byte_buoc(s, k + 1);
    lemma_vt_byte_tang(s, k + 2, s.len() as int);
}

/// Văn bản ghép từ đoạn trước, đoạn đang soát và đoạn sau, cách nhau bằng dấu
/// xuống dòng.
pub open spec fn ghep_ngu_canh(truoc: Seq<char>, doan: Seq<char>, sau: Seq<char>) -> Seq<char> {
    truoc + (if truoc.len() > 0 { seq!['\n'] } else { seq![] }) + doan + (if sau.len() > 0 {
        seq!['\n'] + sau
    } else {
        seq![]
    })
}

/// Số ký tự đứng trước đoạn đang soát trong văn bản ghép.
pub open spec fn lech_ngu_canh(truoc: Seq<char>) -> int {
    truoc.len() + (if truoc.len() > 0 { 1int } else { 0int })
}

/// Cửa sổ cho lối điền chỗ trống: hai câu trước (không quá 700 byte) và hai câu
/// sau (không quá 400 byte) quanh khoảng `[a, b)` của đoạn.
pub open spec fn cua_so_spec(truoc: Seq<char>, doan: Seq<char>, sau: Seq<char>, a: int, b: int) -> (
    Seq<char>,
    Seq<char>,
) {
    let t = ghep_ngu_canh(truoc, doan, sau);
    let t1 = lech_ngu_canh(truoc) + crate::sua::chi_so(doan, a);
    let t2 = lech_ngu_canh(truoc) + crate::sua::chi_so(doan, b);
    let d = lui_tu(t, t1, t1 - 1, 2, None, false);
    let d2 = if vt_byte(t, t1) - vt_byte(t, d) > 700 {
        nho_nhat(t, vt_byte(t, t1) - 700, 0)
    } else {
        d
    };
    let c = tien_tu(t, t2, 2, t2);
    let c2 = if vt_byte(t, c) - vt_byte(t, t2) > 400 {
        lon_nhat(t, vt_byte(t, t2) as int + 400, t.len() as int)
    } else {
        c
    };
    (t.subrange(d2, t1), t.subrange(t2, c2))
}

/// Dựng cửa sổ cho lối điền chỗ trống: (phần đứng trước, phần đứng sau).
///
/// Ghép đoạn kề bên vào rồi mới cắt theo câu: một đoạn thoại một câu thì "hai
/// câu trước" phải lấn sang đoạn trên mới có.
pub fn cua_so_cho_trong(doan: &str, nc: &NguCanh, r: &Range<usize>) -> (kq: (String, String))
    requires
        r.start <= r.end,
        crate::sua::ranh_gioi(doan@, r.start as int),
        crate::sua::ranh_gioi(doan@, r.end as int),
    ensures
        (kq.0@, kq.1@) == cua_so_spec(nc.truoc@, doan@, nc.sau@, r.start as int, r.end as int),
{
    let ghost ts = ghep_ngu_canh(nc.truoc@, doan@, nc.sau@);
    let truoc = ky_tu(nc.truoc);
    let sau = ky_tu(nc.sau);
    let dv = ky_tu(doan);
    let db = bang_vi_tri(doan);
    let xuong = vec!['\n'];
    assert(xuong@ =~= seq!['\n']);
    let mut tv = truoc;
    if tv.len() > 0 {
        tv = noi(&tv, &xuong);
    }
    let lech = tv.len();
    assert(lech as int == lech_ngu_canh(nc.truoc@));
    tv = noi(&tv, &dv);
    assert(tv@.len() == lech + dv@.len());
    if sau.len() > 0 {
        tv = noi(&noi(&tv, &xuong), &sau);
    }
    assert(tv@ =~= ts);
    let toan = chuoi(tv.as_slice());
    let b = bang_vi_tri(toan.as_str());
    let ka = crate::sua::chi_so_exec(&db, r.start, Ghost(doan@));
    let kb = crate::sua::chi_so_exec(&db, r.end, Ghost(doan@));
    proof {
        if ka > kb {
            lemma_vt_byte_tang(doan@, kb as int, ka as int);
        }
    }
    let n = tv.len();
    assert(n >= lech + dv@.len());
    let t1 = lech + ka;
    let t2 = lech + kb;
    proof {
        lemma_vt_byte_tang(ts, t1 as int, n as int);
        lemma_vt_byte_tang(ts, t2 as int, n as int);
    }
    let d = lui_ky_tu(&tv, t1, 2);
    proof {
        lemma_vt_byte_tang(ts, d as int, t1 as int);
    }
    let mut d2 = d;
    if b[t1] - b[d] > 700 {
        let x = b[t1] - 700;
        proof {
            lemma_nho_nhat(ts, x as int, 0, t1 as int);
        }
        let mut p: usize = 0;
        while p < n && b[p] < x
            invariant
                p <= n,
                n == ts.len(),
                b@.len() == ts.len() + 1,
                forall|q: int| 0 <= q <= ts.len() ==> #[trigger] b@[q] == vt_byte(ts, q),
                nho_nhat(ts, x as int, 0) == nho_nhat(ts, x as int, p as int),
            decreases n - p,
        {
            p += 1;
        }
        d2 = p;
    }
    let c = tien_ky_tu(&tv, t2, 2);
    proof {
        lemma_vt_byte_tang(ts, t2 as int, c as int);
        lemma_vt_byte_tang(ts, c as int, n as int);
    }
    let mut c2 = c;
    if b[c] - b[t2] > 400 {
        let x = b[t2] + 400;
        proof {
            lemma_lon_nhat(ts, x as int, n as int, t2 as int);
        }
        let mut q: usize = n;
        while q > 0 && b[q] > x
            invariant
                q <= n,
                n == ts.len(),
                b@.len() == ts.len() + 1,
                forall|t: int| 0 <= t <= ts.len() ==> #[trigger] b@[t] == vt_byte(ts, t),
                lon_nhat(ts, x as int, n as int) == lon_nhat(ts, x as int, q as int),
            decreases q,
        {
            q -= 1;
        }
        c2 = q;
    }
    let phan_truoc = chuoi(cat_doan(tv.as_slice(), d2, t1).as_slice());
    let phan_sau = chuoi(cat_doan(tv.as_slice(), t2, c2).as_slice());
    (phan_truoc, phan_sau)
}


/// Số lần một chữ phải xuất hiện thì mới được coi là tên riêng (và là vốn từ
/// của sách): lỗi gõ lặp lại y hệt ba lần trong một cuốn sách là hiếm.
pub const LAN_DE_LA_TEN_RIENG: usize = 3;

/// Tiếng thứ `q` của văn bản.
pub open spec fn tieng(s: Seq<char>, q: int) -> Seq<char> {
    s.subrange(cat_spec(s)[q].0, cat_spec(s)[q].1)
}

/// Chỉ gồm khoảng trắng thường, dấu phẩy, dấu chấm phẩy.
pub open spec fn giua_cau_spec(g: Seq<char>) -> bool {
    forall|q: int| 0 <= q < g.len() ==> g[q] == ' ' || g[q] == ',' || g[q] == ';'
}

/// Tiếng thứ `i` nằm **giữa câu**: có tiếng đứng trước, và giữa hai tiếng chỉ có
/// khoảng trắng, dấu phẩy, dấu chấm phẩy.
pub open spec fn giua_cau_tai(s: Seq<char>, i: int) -> bool {
    i > 0 && giua_cau_spec(s.subrange(cat_spec(s)[i - 1].1, cat_spec(s)[i].0))
}

/// Chữ cái đầu viết hoa.
pub open spec fn hoa_dau(chu: Seq<char>) -> bool {
    chu.len() > 0 && la_hoa(chu[0])
}

/// Tăng số đếm của khoá `k`.
pub open spec fn dem_them(m: Map<Seq<char>, usize>, k: Seq<char>) -> Map<Seq<char>, usize> {
    m.insert(k, if m.dom().contains(k) { (m[k] + 1) as usize } else { 1usize })
}

/// Đếm lần lượt các khoá trong `ks` (bỏ qua `None`), bắt đầu từ bảng `m`.
pub open spec fn dem_den(m: Map<Seq<char>, usize>, ks: Seq<Option<Seq<char>>>) -> Map<Seq<char>, usize>
    decreases ks.len(),
{
    if ks.len() == 0 {
        m
    } else {
        let t = dem_den(m, ks.drop_last());
        match ks.last() {
            Some(k) => dem_them(t, k),
            None => t,
        }
    }
}

/// Tiếng thứ `i` có được đếm là ứng viên tên riêng không, và đếm dưới khoá nào:
/// tiếng Việt có dấu, viết hoa, không có trong từ điển, nằm giữa câu.
pub open spec fn khoa_ten_rieng(s: Seq<char>, kho: Set<Seq<char>>, i: int) -> Option<Seq<char>> {
    let t = tieng(s, i);
    if dang_tu_spec(t) == DangTu::TiengViet && hoa_dau(t) && !co_am_tiet_spec(kho, t) && giua_cau_tai(s, i) {
        Some(thuong_cua(t))
    } else {
        None
    }
}

/// Tiếng thứ `i` có được đếm vào vốn từ của sách không: mọi tiếng tiếng Việt.
pub open spec fn khoa_tu_dung(s: Seq<char>, i: int) -> Option<Seq<char>> {
    let t = tieng(s, i);
    if dang_tu_spec(t) == DangTu::TiengViet {
        Some(thuong_cua(t))
    } else {
        None
    }
}

/// Các khoá đếm được trên cả văn bản, theo một luật chọn khoá.
pub open spec fn khoa_ten_rieng_ca(s: Seq<char>, kho: Set<Seq<char>>) -> Seq<Option<Seq<char>>> {
    Seq::new(cat_spec(s).len(), |i: int| khoa_ten_rieng(s, kho, i))
}

/// Các khoá vốn từ trên cả văn bản.
pub open spec fn khoa_tu_dung_ca(s: Seq<char>) -> Seq<Option<Seq<char>>> {
    Seq::new(cat_spec(s).len(), |i: int| khoa_tu_dung(s, i))
}

/// Bảng đếm còn đủ chỗ cho `n` lần đếm nữa.
pub open spec fn con_cho(m: Map<Seq<char>, usize>, n: int) -> bool {
    &&& m.dom().len() + n < usize::MAX
    &&& forall|k: Seq<char>| #[trigger] m.dom().contains(k) ==> m[k] + n < usize::MAX
}

/// Khoá tuỳ chọn ở dạng toán học.
pub open spec fn opt_v(o: Option<Vec<char>>) -> Option<Seq<char>> {
    match o {
        Some(k) => Some(k@),
        None => None,
    }
}

fn dem_cac_khoa(dem: &mut BangChu<usize>, ks: Vec<Option<Vec<char>>>)
    requires
        old(dem).hop_le(),
        con_cho(old(dem)@, ks@.len() as int),
    ensures
        final(dem).hop_le(),
        final(dem)@ == dem_den(old(dem)@, ks@.map_values(|o: Option<Vec<char>>| opt_v(o))),
{
    let ghost m0 = dem@;
    let ghost kv = ks@.map_values(|o: Option<Vec<char>>| opt_v(o));
    let mut ks = ks;
    let mut con: Vec<Option<Vec<char>>> = Vec::new();
    // Lấy lần lượt từ đầu: đảo một lần rồi `pop`.
    while ks.len() > 0
        invariant
            ks@.map_values(|o: Option<Vec<char>>| opt_v(o)) + con@.map_values(|o: Option<Vec<char>>| opt_v(o)).reverse() == kv,
        decreases ks.len(),
    {
        let ghost a = ks@.map_values(|o: Option<Vec<char>>| opt_v(o));
        let ghost c = con@.map_values(|o: Option<Vec<char>>| opt_v(o));
        let x = ks.pop().unwrap();
        let ghost xv = opt_v(x);
        con.push(x);
        proof {
            let a2 = ks@.map_values(|o: Option<Vec<char>>| opt_v(o));
            let c2 = con@.map_values(|o: Option<Vec<char>>| opt_v(o));
            assert(a =~= a2.push(xv));
            assert(c2 =~= c.push(xv));
            assert(c2.reverse() =~= seq![xv] + c.reverse());
            assert(a2 + c2.reverse() =~= a + c.reverse());
        }
    }
    let mut i: usize = 0;
    let n = con.len();
    proof {
        let c = con@.map_values(|o: Option<Vec<char>>| opt_v(o));
        assert(ks@.len() == 0);
        assert(c.reverse() =~= kv);
        assert(kv.take(0) =~= Seq::<Option<Seq<char>>>::empty());
    }
    while con.len() > 0
        invariant
            i + con@.len() == n,
            n == kv.len(),
            con@.map_values(|o: Option<Vec<char>>| opt_v(o)).reverse() == kv.skip(i as int),
            dem.hop_le(),
            dem@ == dem_den(m0, kv.take(i as int)),
            con_cho(m0, n as int),
            dem@.dom().len() <= m0.dom().len() + i,
            forall|k: Seq<char>| #[trigger] dem@.dom().contains(k) ==> dem@[k] <= (if m0.dom().contains(k) {
                m0[k] as int
            } else {
                0
            }) + i,
        decreases con.len(),
    {
        let ghost c = con@.map_values(|o: Option<Vec<char>>| opt_v(o));
        let x = con.pop().unwrap();
        proof {
            assert(c.reverse()[0] == c.last());
            assert(kv.skip(i as int)[0] == kv[i as int]);
            let c2 = con@.map_values(|o: Option<Vec<char>>| opt_v(o));
            assert(c2 =~= c.drop_last());
            assert(c.drop_last().reverse() =~= c.reverse().skip(1));
            assert(kv.skip(i as int).skip(1) =~= kv.skip(i + 1));
            assert(kv.take(i + 1).drop_last() =~= kv.take(i as int));
            assert(kv.take(i + 1).last() == kv[i as int]);
        }
        match x {
            Some(k) => {
                proof {
                    if dem@.dom().contains(k@) {
                        assert(dem@[k@] <= (if m0.dom().contains(k@) { m0[k@] as int } else { 0 }) + i);
                    }
                }
                dem.tang(k);
            },
            None => {},
        }
        i += 1;
    }
    assert(kv.take(n as int) =~= kv);
}

/// Chép một dãy ký tự.
fn chep_ky_tu(v: &[char]) -> (r: Vec<char>)
    ensures
        r@ == v@,
{
    cat_doan(v, 0, v.len())
}

fn giua_cau_exec(v: &Vec<char>, a: usize, e: usize) -> (r: bool)
    requires
        a <= e <= v@.len(),
    ensures
        r == giua_cau_spec(v@.subrange(a as int, e as int)),
{
    let mut p = a;
    while p < e
        invariant
            a <= p <= e <= v@.len(),
            forall|q: int| a <= q < p ==> v@[q] == ' ' || v@[q] == ',' || v@[q] == ';',
        decreases e - p,
    {
        let c = v[p];
        if c != ' ' && c != ',' && c != ';' {
            assert(v@.subrange(a as int, e as int)[p - a] == c);
            return false;
        }
        p += 1;
    }
    true
}

/// Ranh giới các tiếng của một văn bản, kèm các tính chất cần để cắt.
fn tieng_cua(van_ban: &str) -> (r: (Vec<char>, Vec<(usize, usize)>))
    ensures
        r.0@ == van_ban@,
        r.1@.len() == cat_spec(van_ban@).len(),
        r.1@.len() <= van_ban@.len(),
        forall|q: int| 0 <= q < r.1@.len() ==> (#[trigger] r.1@[q]).0 == cat_spec(van_ban@)[q].0 && r.1@[q].1
            == cat_spec(van_ban@)[q].1,
        forall|q: int| 0 <= q < r.1@.len() ==> 0 <= (#[trigger] r.1@[q]).0 < r.1@[q].1 <= van_ban@.len(),
        forall|q: int| 0 <= q < r.1@.len() - 1 ==> (#[trigger] r.1@[q]).1 < r.1@[q + 1].0,
{
    let v = ky_tu(van_ban);
    let ks = cat_chi_so(v.as_slice());
    proof {
        crate::tach_tu::lemma_cat_tang(v@);
        crate::tach_tu::lemma_so_tu_chan(v@);
    }
    (v, ks)
}

/// Gom tên riêng từ chính cuốn sách: chữ **viết hoa**, **không có trong từ
/// điển**, và nằm **giữa câu**. Gọi cho mọi đoạn ở lượt đọc đầu, rồi chốt bằng
/// [`chot_ten_rieng`].
pub fn gom_ten_rieng(van_ban: &str, tu_dien: &TuDien, dem: &mut BangChu<usize>)
    requires
        tu_dien.hop_le(),
        old(dem).hop_le(),
        con_cho(old(dem)@, van_ban@.len() as int),
    ensures
        final(dem).hop_le(),
        final(dem)@ == dem_den(old(dem)@, khoa_ten_rieng_ca(van_ban@, tu_dien.kho_am_tiet())),
{
    let ghost s = van_ban@;
    let (v, ks) = tieng_cua(van_ban);
    let mut khoa: Vec<Option<Vec<char>>> = Vec::new();
    let mut i: usize = 0;
    while i < ks.len()
        invariant
            i <= ks@.len(),
            v@ == s,
            tu_dien.hop_le(),
            ks@.len() == cat_spec(s).len(),
            forall|q: int| 0 <= q < ks@.len() ==> (#[trigger] ks@[q]).0 == cat_spec(s)[q].0 && ks@[q].1 == cat_spec(
                s,
            )[q].1,
            forall|q: int| 0 <= q < ks@.len() ==> 0 <= (#[trigger] ks@[q]).0 < ks@[q].1 <= s.len(),
            forall|q: int| 0 <= q < ks@.len() - 1 ==> (#[trigger] ks@[q]).1 < ks@[q + 1].0,
            khoa@.len() == i,
            forall|q: int| 0 <= q < i ==> opt_v(#[trigger] khoa@[q]) == khoa_ten_rieng(s, tu_dien.kho_am_tiet(), q),
        decreases ks.len() - i,
    {
        let t = cat_doan(v.as_slice(), ks[i].0, ks[i].1);
        let ts = chuoi(t.as_slice());
        let mut k: Option<Vec<char>> = None;
        if dang_tu(ts.as_str()) == DangTu::TiengViet && t.len() > 0 && hoa(t[0]) && !tu_dien.co_am_tiet(ts.as_str())
            && i > 0 && giua_cau_exec(&v, ks[i - 1].1, ks[i].0) {
            k = Some(chuoi_thuong(t.as_slice()));
        }
        khoa.push(k);
        i += 1;
    }
    assert(khoa@.map_values(|o: Option<Vec<char>>| opt_v(o)) =~= khoa_ten_rieng_ca(s, tu_dien.kho_am_tiet()));
    dem_cac_khoa(dem, khoa);
}

/// Gom **vốn từ của chính cuốn sách**: mọi tiếng tiếng Việt, viết thường hoá.
pub fn gom_tu_dung(van_ban: &str, dem: &mut BangChu<usize>)
    requires
        old(dem).hop_le(),
        con_cho(old(dem)@, van_ban@.len() as int),
    ensures
        final(dem).hop_le(),
        final(dem)@ == dem_den(old(dem)@, khoa_tu_dung_ca(van_ban@)),
{
    let ghost s = van_ban@;
    let (v, ks) = tieng_cua(van_ban);
    let mut khoa: Vec<Option<Vec<char>>> = Vec::new();
    let mut i: usize = 0;
    while i < ks.len()
        invariant
            i <= ks@.len(),
            v@ == s,
            ks@.len() == cat_spec(s).len(),
            forall|q: int| 0 <= q < ks@.len() ==> (#[trigger] ks@[q]).0 == cat_spec(s)[q].0 && ks@[q].1 == cat_spec(
                s,
            )[q].1,
            forall|q: int| 0 <= q < ks@.len() ==> 0 <= (#[trigger] ks@[q]).0 < ks@[q].1 <= s.len(),
            khoa@.len() == i,
            forall|q: int| 0 <= q < i ==> opt_v(#[trigger] khoa@[q]) == khoa_tu_dung(s, q),
        decreases ks.len() - i,
    {
        let t = cat_doan(v.as_slice(), ks[i].0, ks[i].1);
        let ts = chuoi(t.as_slice());
        let mut k: Option<Vec<char>> = None;
        if dang_tu(ts.as_str()) == DangTu::TiengViet {
            k = Some(chuoi_thuong(t.as_slice()));
        }
        khoa.push(k);
        i += 1;
    }
    assert(khoa@.map_values(|o: Option<Vec<char>>| opt_v(o)) =~= khoa_tu_dung_ca(s));
    dem_cac_khoa(dem, khoa);
}

/// Các khoá của bảng đếm đạt ít nhất `LAN_DE_LA_TEN_RIENG` lần.
pub open spec fn du_lan(m: Map<Seq<char>, usize>) -> Set<Seq<char>> {
    Set::new(|k: Seq<char>| m.dom().contains(k) && m[k] >= LAN_DE_LA_TEN_RIENG)
}

fn loc_du_lan(dem: &BangChu<usize>) -> (r: BangChu<()>)
    requires
        dem.hop_le(),
    ensures
        r.hop_le(),
        r@.dom() == du_lan(dem@),
{
    let khoa = dem.cac_khoa();
    let mut r: BangChu<()> = BangChu::new();
    let mut j: usize = 0;
    while j < khoa.len()
        invariant
            j <= khoa@.len(),
            dem.hop_le(),
            r.hop_le(),
            khoa@.len() == dem@.dom().len(),
            forall|a: int, b: int| 0 <= a < b < khoa@.len() ==> (#[trigger] khoa@[a])@ != (#[trigger] khoa@[b])@,
            forall|a: int| 0 <= a < khoa@.len() ==> dem@.dom().contains((#[trigger] khoa@[a])@),
            forall|k: Seq<char>| #[trigger] dem@.dom().contains(k) ==> exists|a: int|
                0 <= a < khoa@.len() && (#[trigger] khoa@[a])@ == k,
            r@.dom().len() <= j,
            forall|k: Seq<char>| #[trigger] r@.dom().contains(k) <==> (exists|a: int|
                0 <= a < j && (#[trigger] khoa@[a])@ == k) && dem@[k] >= LAN_DE_LA_TEN_RIENG,
        decreases khoa.len() - j,
    {
        let ghost truoc = r@;
        let n = match dem.lay(khoa[j].as_slice()) {
            Some(x) => *x,
            None => 0,
        };
        if n >= LAN_DE_LA_TEN_RIENG {
            r.dat(chep_ky_tu(khoa[j].as_slice()), ());
        }
        proof {
            assert forall|k: Seq<char>| #[trigger] r@.dom().contains(k) <==> (exists|a: int|
                0 <= a < j + 1 && (#[trigger] khoa@[a])@ == k) && dem@[k] >= LAN_DE_LA_TEN_RIENG by {
                if exists|a: int| 0 <= a < j + 1 && (#[trigger] khoa@[a])@ == k {
                    let a = choose|a: int| 0 <= a < j + 1 && (#[trigger] khoa@[a])@ == k;
                    if a < j {
                        assert(exists|a2: int| 0 <= a2 < j && (#[trigger] khoa@[a2])@ == k);
                    }
                }
                if exists|a: int| 0 <= a < j && (#[trigger] khoa@[a])@ == k {
                    let a = choose|a: int| 0 <= a < j && (#[trigger] khoa@[a])@ == k;
                    assert(exists|a2: int| 0 <= a2 < j + 1 && (#[trigger] khoa@[a2])@ == k);
                }
                if k == khoa@[j as int]@ {
                    assert(exists|a2: int| 0 <= a2 < j + 1 && (#[trigger] khoa@[a2])@ == k);
                }
            }
        }
        j += 1;
    }
    assert(r@.dom() =~= du_lan(dem@)) by {
        assert forall|k: Seq<char>| #[trigger] du_lan(dem@).contains(k) implies r@.dom().contains(k) by {
            let a = choose|a: int| 0 <= a < khoa@.len() && (#[trigger] khoa@[a])@ == k;
        }
    }
    r
}

/// Chốt danh sách tên riêng từ bảng đếm: những chữ gặp từ ba lần trở lên.
pub fn chot_ten_rieng(dem: BangChu<usize>) -> (r: BangChu<()>)
    requires
        dem.hop_le(),
    ensures
        r.hop_le(),
        r@.dom() == du_lan(dem@),
{
    loc_du_lan(&dem)
}

/// Chốt vốn từ của sách từ bảng đếm: cùng ngưỡng ba lần như tên riêng.
pub fn chot_tu_dung(dem: BangChu<usize>) -> (r: BangChu<()>)
    requires
        dem.hop_le(),
    ensures
        r.hop_le(),
        r@.dom() == du_lan(dem@),
{
    loc_du_lan(&dem)
}


/// Dấu vân tay 64 bit của một cụm: `DefaultHasher` trên các byte UTF-8 của nó.
pub open spec fn van_tay_spec(cum: Seq<char>) -> u64 {
    DefaultHasher::spec_finish(seq![vstd::utf8::encode_utf8(cum), seq![0xffu8]])
}

fn van_tay(cum: &[char]) -> (r: u64)
    ensures
        r == van_tay_spec(cum@),
{
    let s = chuoi(cum);
    let mut h = DefaultHasher::new();
    h.write(s.as_str().as_bytes());
    let ghost mot = h@;
    assert(mot =~= seq![vstd::utf8::encode_utf8(cum@)]);
    let ket = vec![0xffu8];
    h.write(ket.as_slice());
    assert(ket@ =~= seq![0xffu8]);
    assert(h@ =~= seq![vstd::utf8::encode_utf8(cum@), seq![0xffu8]]);
    h.finish()
}

/// Bảng đếm cụm hai tầng: cụm gặp lần đầu chỉ để lại dấu vân tay; sang lần thứ
/// hai mới giữ chữ, vì phần lớn cặp tiếng liền nhau chỉ gặp đúng một lần.
pub struct DemCum {
    mot_lan: HashSet<u64>,
    tu_hai_lan: BangChu<usize>,
}

/// Đếm thêm một cụm vào bảng hai tầng (vân tay gặp một lần, cụm gặp từ hai lần).
pub open spec fn them_cum(st: (Set<u64>, Map<Seq<char>, usize>), cum: Seq<char>) -> (Set<u64>, Map<Seq<char>, usize>) {
    if st.1.dom().contains(cum) {
        (st.0, st.1.insert(cum, (st.1[cum] + 1) as usize))
    } else if st.0.contains(van_tay_spec(cum)) {
        (st.0.remove(van_tay_spec(cum)), st.1.insert(cum, 2usize))
    } else {
        (st.0.insert(van_tay_spec(cum)), st.1)
    }
}

/// Đếm lần lượt các cụm trong `ks` (bỏ qua `None`).
pub open spec fn them_cum_den(st: (Set<u64>, Map<Seq<char>, usize>), ks: Seq<Option<Seq<char>>>) -> (
    Set<u64>,
    Map<Seq<char>, usize>,
)
    decreases ks.len(),
{
    if ks.len() == 0 {
        st
    } else {
        let t = them_cum_den(st, ks.drop_last());
        match ks.last() {
            Some(k) => them_cum(t, k),
            None => t,
        }
    }
}

impl DemCum {
    /// Các vân tay đang gặp đúng một lần.
    pub closed spec fn van_tay_mot_lan(&self) -> Set<u64> {
        self.mot_lan@
    }

    /// Các cụm đã gặp từ hai lần, kèm số lần.
    pub closed spec fn hai_lan(&self) -> Map<Seq<char>, usize> {
        self.tu_hai_lan@
    }

    /// Bất biến của bảng.
    pub closed spec fn hop_le(&self) -> bool {
        self.tu_hai_lan.hop_le()
    }

    /// Bảng rỗng.
    pub fn moi() -> (r: DemCum)
        ensures
            r.hop_le(),
            r.van_tay_mot_lan() == Set::<u64>::empty(),
            r.hai_lan() == Map::<Seq<char>, usize>::empty(),
    {
        DemCum { mot_lan: HashSet::new(), tu_hai_lan: BangChu::new() }
    }

    fn them(&mut self, cum: Vec<char>)
        requires
            old(self).hop_le(),
            con_cho(old(self).hai_lan(), 1),
        ensures
            final(self).hop_le(),
            (final(self).van_tay_mot_lan(), final(self).hai_lan()) == them_cum(
                (old(self).van_tay_mot_lan(), old(self).hai_lan()),
                cum@,
            ),
            final(self).hai_lan().dom().len() <= old(self).hai_lan().dom().len() + 1,
            forall|k: Seq<char>| #[trigger] final(self).hai_lan().dom().contains(k) ==> final(self).hai_lan()[k] <= (
            if old(self).hai_lan().dom().contains(k) {
                old(self).hai_lan()[k] as int
            } else {
                0
            }) + 2,
    {
        broadcast use vstd::std_specs::hash::group_hash_axioms;

        if self.tu_hai_lan.co(cum.as_slice()) {
            self.tu_hai_lan.tang(cum);
            return;
        }
        let v = van_tay(cum.as_slice());
        if self.mot_lan.remove(&v) {
            self.tu_hai_lan.dat(cum, 2);
        } else {
            self.mot_lan.insert(v);
        }
    }

    /// Số cụm đang giữ chữ — để in ra cho người dùng biết bảng lớn cỡ nào.
    pub fn so_cum(&self) -> (r: usize)
        requires
            self.hop_le(),
        ensures
            r == self.hai_lan().dom().len(),
    {
        self.tu_hai_lan.len()
    }
}

impl Default for DemCum {
    fn default() -> (r: Self)
        ensures
            r.hop_le(),
            r.van_tay_mot_lan() == Set::<u64>::empty(),
            r.hai_lan() == Map::<Seq<char>, usize>::empty(),
    {
        DemCum::moi()
    }
}

/// Tiếng đủ **sạch** để vào từ điển riêng của sách: tiếng Việt (có dấu hay
/// không dấu) **và có trong từ điển âm tiết**.
pub open spec fn sach_se_spec(kho: Set<Seq<char>>, chu: Seq<char>) -> bool {
    (dang_tu_spec(chu) == DangTu::TiengViet || dang_tu_spec(chu) == DangTu::KhongDau) && co_am_tiet_spec(kho, chu)
}

/// Cụm hai tiếng `i`, `i+1` có được đếm vào từ điển riêng không, và đếm dưới
/// khoá nào: chỉ một khoảng trắng xen giữa, cả hai viết hoa và sạch, tiếng đầu
/// nằm giữa câu, và cụm chưa có trong từ điển từ ghép.
pub open spec fn khoa_cum(s: Seq<char>, am: Set<Seq<char>>, ghep: Set<Seq<char>>, i: int) -> Option<Seq<char>> {
    let a = tieng(s, i);
    let b = tieng(s, i + 1);
    if s.subrange(cat_spec(s)[i].1, cat_spec(s)[i + 1].0) == seq![' '] && hoa_dau(a) && hoa_dau(b) && sach_se_spec(
        am,
        a,
    ) && sach_se_spec(am, b) && giua_cau_tai(s, i) {
        let cum = thuong_cua(a) + seq![' '] + thuong_cua(b);
        if !ghep.contains(cum) {
            Some(cum)
        } else {
            None
        }
    } else {
        None
    }
}

/// Các cụm đếm được trên cả văn bản.
pub open spec fn khoa_cum_ca(s: Seq<char>, am: Set<Seq<char>>, ghep: Set<Seq<char>>) -> Seq<Option<Seq<char>>> {
    Seq::new(
        if cat_spec(s).len() > 0 { (cat_spec(s).len() - 1) as nat } else { 0nat },
        |i: int| khoa_cum(s, am, ghep, i),
    )
}

fn sach_se(tu_dien: &TuDien, chu: &str) -> (r: bool)
    requires
        tu_dien.hop_le(),
    ensures
        r == sach_se_spec(tu_dien.kho_am_tiet(), chu@),
{
    let d = dang_tu(chu);
    (d == DangTu::TiengViet || d == DangTu::KhongDau) && tu_dien.co_am_tiet(chu)
}

/// Gom **từ điển riêng của cuốn sách**: mọi cặp tiếng viết hoa đứng liền nhau,
/// đếm theo bảng hai tầng [`DemCum`]; chốt bằng [`chot_cum_ten_rieng`].
pub fn gom_cum_ten_rieng(van_ban: &str, tu_dien: &TuDien, dem: &mut DemCum)
    requires
        tu_dien.hop_le(),
        old(dem).hop_le(),
        con_cho(old(dem).hai_lan(), 2 * van_ban@.len() as int),
    ensures
        final(dem).hop_le(),
        (final(dem).van_tay_mot_lan(), final(dem).hai_lan()) == them_cum_den(
            (old(dem).van_tay_mot_lan(), old(dem).hai_lan()),
            khoa_cum_ca(van_ban@, tu_dien.kho_am_tiet(), tu_dien.kho_tu_ghep()),
        ),
{
    let ghost s = van_ban@;
    let ghost am = tu_dien.kho_am_tiet();
    let ghost ghep = tu_dien.kho_tu_ghep();
    let ghost ks_all = khoa_cum_ca(s, am, ghep);
    let ghost st0 = (dem.van_tay_mot_lan(), dem.hai_lan());
    let ghost m0 = dem.hai_lan();
    let (v, ks) = tieng_cua(van_ban);
    let so = if ks.len() > 0 { ks.len() - 1 } else { 0 };
    let cach = vec![' '];
    assert(cach@ =~= seq![' ']);
    let mut i: usize = 0;
    assert(ks_all.take(0) =~= Seq::<Option<Seq<char>>>::empty());
    while i < so
        invariant
            i <= so,
            so == ks_all.len(),
            so <= s.len(),
            v@ == s,
            cach@ == seq![' '],
            tu_dien.hop_le(),
            am == tu_dien.kho_am_tiet(),
            ghep == tu_dien.kho_tu_ghep(),
            ks_all == khoa_cum_ca(s, am, ghep),
            ks@.len() == cat_spec(s).len(),
            forall|q: int| 0 <= q < ks@.len() ==> (#[trigger] ks@[q]).0 == cat_spec(s)[q].0 && ks@[q].1 == cat_spec(
                s,
            )[q].1,
            forall|q: int| 0 <= q < ks@.len() ==> 0 <= (#[trigger] ks@[q]).0 < ks@[q].1 <= s.len(),
            forall|q: int| 0 <= q < ks@.len() - 1 ==> (#[trigger] ks@[q]).1 < ks@[q + 1].0,
            dem.hop_le(),
            (dem.van_tay_mot_lan(), dem.hai_lan()) == them_cum_den(st0, ks_all.take(i as int)),
            con_cho(m0, 2 * s.len() as int),
            dem.hai_lan().dom().len() <= m0.dom().len() + i,
            forall|k: Seq<char>| #[trigger] dem.hai_lan().dom().contains(k) ==> dem.hai_lan()[k] <= (
            if m0.dom().contains(k) {
                m0[k] as int
            } else {
                0
            }) + 2 * i,
        decreases so - i,
    {
        proof {
            assert(ks_all.take(i + 1).drop_last() =~= ks_all.take(i as int));
            assert(ks_all.take(i + 1).last() == ks_all[i as int]);
        }
        let a = cat_doan(v.as_slice(), ks[i].0, ks[i].1);
        let b = cat_doan(v.as_slice(), ks[i + 1].0, ks[i + 1].1);
        let giua = cat_doan(v.as_slice(), ks[i].1, ks[i + 1].0);
        let a_s = chuoi(a.as_slice());
        let b_s = chuoi(b.as_slice());
        if bang_nhau(giua.as_slice(), cach.as_slice()) && a.len() > 0 && hoa(a[0]) && b.len() > 0 && hoa(b[0])
            && sach_se(tu_dien, a_s.as_str()) && sach_se(tu_dien, b_s.as_str()) && i > 0 && giua_cau_exec(
            &v,
            ks[i - 1].1,
            ks[i].0,
        ) {
            let cum = noi(&noi(&chuoi_thuong(a.as_slice()), &cach), &chuoi_thuong(b.as_slice()));
            let cum_s = chuoi(cum.as_slice());
            if !tu_dien.co_tu_ghep(cum_s.as_str()) {
                proof {
                    assert forall|k: Seq<char>| #[trigger] dem.hai_lan().dom().contains(k) implies dem.hai_lan()[k]
                        + 1 < usize::MAX by {
                        assert(dem.hai_lan()[k] <= (if m0.dom().contains(k) { m0[k] as int } else { 0 }) + 2 * i);
                    }
                }
                dem.them(cum);
                assert(ks_all[i as int] == Some(cum@));
            } else {
                assert(ks_all[i as int] is None);
            }
        } else {
            assert(ks_all[i as int] is None);
        }
        i += 1;
    }
    assert(ks_all.take(so as int) =~= ks_all);
}

/// Chốt danh sách cụm tên riêng: những cụm gặp từ ba lần trở lên.
pub fn chot_cum_ten_rieng(dem: DemCum) -> (r: BangChu<()>)
    requires
        dem.hop_le(),
    ensures
        r.hop_le(),
        r@.dom() == du_lan(dem.hai_lan()),
{
    loc_du_lan(&dem.tu_hai_lan)
}


/// Các phép sửa được ghi vào báo cáo, trong `n` phép đầu của danh sách đã sắp:
/// bỏ phép chồng lên phép đã ghi hay trỏ ra ngoài văn bản.
pub open spec fn ghi_den(g: Seq<char>, ds: Seq<SuaDoiV>, n: int) -> (Seq<SuaDoiV>, int)
    decreases n,
{
    if n <= 0 {
        (seq![], 0)
    } else {
        let (r, c) = ghi_den(g, ds, n - 1);
        let x = ds[n - 1];
        if x.dau < c || x.cuoi > vstd::utf8::encode_utf8(g).len() {
            (r, c)
        } else {
            (r.push(x), x.cuoi as int)
        }
    }
}

/// Chỉ giữ phép sửa thật sự đổi chữ.
pub open spec fn co_doi_ds(ds: Seq<SuaDoiV>) -> Seq<SuaDoiV> {
    ds.filter(|x: SuaDoiV| x.goc != x.thay_bang)
}

/// Áp một loạt phép sửa lên `g`: (văn bản mới, các phép ghi vào báo cáo).
pub open spec fn ghi_nhan_spec(g: Seq<char>, ds: Seq<SuaDoiV>) -> (Seq<char>, Seq<SuaDoiV>) {
    let d = co_doi_ds(ds);
    if d.len() == 0 {
        (g, seq![])
    } else {
        let sx = crate::sua::sap_xep(d);
        (crate::sua::ap_spec(g, sx).0, ghi_den(g, sx, sx.len() as int).0)
    }
}

fn loc_co_doi(s: Vec<SuaDoi>) -> (r: Vec<SuaDoi>)
    ensures
        crate::sua::dsv(r@) == co_doi_ds(crate::sua::dsv(s@)),
{
    let ghost g = crate::sua::dsv(s@);
    let mut r: Vec<SuaDoi> = Vec::new();
    let mut i: usize = 0;
    proof {
        reveal(Seq::filter);
        assert(g.take(0) =~= Seq::<SuaDoiV>::empty());
        assert(crate::sua::dsv(r@) =~= Seq::<SuaDoiV>::empty());
    }
    while i < s.len()
        invariant
            i <= s@.len(),
            g == crate::sua::dsv(s@),
            crate::sua::dsv(r@) == co_doi_ds(g.take(i as int)),
        decreases s.len() - i,
    {
        proof {
            reveal(Seq::filter);
            assert(g.take(i + 1).drop_last() =~= g.take(i as int));
            assert(g.take(i + 1).last() == g[i as int]);
        }
        let ghost truoc = crate::sua::dsv(r@);
        if s[i].co_doi() {
            r.push(s[i].clone());
            assert(crate::sua::dsv(r@) =~= truoc.push(g[i as int]));
        }
        i += 1;
    }
    assert(g.take(g.len() as int) =~= g);
    r
}

/// Áp một loạt phép sửa, ghi những phép **thật sự áp được** vào kết quả, trả
/// văn bản mới. Danh sách được lọc bỏ phép không đổi gì và sắp lại.
fn ghi_nhan(chu: &str, s: &mut Vec<SuaDoi>, kq: &mut KetQua) -> (r: String)
    ensures
        r@ == ghi_nhan_spec(chu@, crate::sua::dsv(old(s)@)).0,
        crate::sua::dsv(final(kq).da_sua@) == crate::sua::dsv(old(kq).da_sua@) + ghi_nhan_spec(
            chu@,
            crate::sua::dsv(old(s)@),
        ).1,
        final(kq).chu@ == old(kq).chu@,
        final(kq).cho_xet@ == old(kq).cho_xet@,
{
    let mut loc = Vec::new();
    std::mem::swap(&mut loc, s);
    *s = loc_co_doi(loc);
    if s.len() == 0 {
        assert(crate::sua::dsv(kq.da_sua@) =~= crate::sua::dsv(kq.da_sua@) + Seq::<SuaDoiV>::empty());
        return chuoi(ky_tu(chu).as_slice());
    }
    let (moi, _) = crate::sua::ap_dung(chu, s);
    let ghost sx = crate::sua::dsv(s@);
    let tong = chu.as_bytes().len();
    let mut cuoi: usize = 0;
    let mut i: usize = 0;
    let ghost d0 = crate::sua::dsv(kq.da_sua@);
    while i < s.len()
        invariant
            i <= s@.len(),
            sx == crate::sua::dsv(s@),
            tong == vstd::utf8::encode_utf8(chu@).len(),
            (crate::sua::dsv(kq.da_sua@), cuoi as int) == (d0 + ghi_den(chu@, sx, i as int).0, ghi_den(chu@, sx, i as int).1),
            kq.chu@ == old(kq).chu@,
            kq.cho_xet@ == old(kq).cho_xet@,
        decreases s.len() - i,
    {
        let x = &s[i];
        assert(sx[i as int] == x@);
        if x.pham_vi.start < cuoi || x.pham_vi.end > tong {
        } else {
            cuoi = x.pham_vi.end;
            let ghost truoc = crate::sua::dsv(kq.da_sua@);
            kq.da_sua.push(x.clone());
            assert(crate::sua::dsv(kq.da_sua@) =~= truoc.push(x@));
        }
        i += 1;
    }
    moi
}

/// Vị trí byte gần `dau` nhất (gặp trước thắng khi hoà) mà `g` xuất hiện trong
/// `s`, xét các lần xuất hiện từ ký tự thứ `k`; `tot` là vị trí tốt nhất đã gặp.
pub open spec fn gan_nhat(s: Seq<char>, g: Seq<char>, dau: int, k: int, tot: Option<int>) -> Option<int>
    decreases s.len() + 1 - k,
{
    if k < 0 {
        tot
    } else {
        match crate::tach_chuoi::tim_chuoi(s, g, k) {
            None => tot,
            Some(j) => {
                let vt = vt_byte(s, j) as int;
                let tot2 = match tot {
                    None => Some(vt),
                    Some(t) => if (if vt >= dau { vt - dau } else { dau - vt }) < (if t >= dau { t - dau } else { dau - t }) {
                        Some(vt)
                    } else {
                        Some(t)
                    },
                };
                proof {
                    crate::tach_chuoi::lemma_tim_chuoi(s, g, k);
                }
                if j + 1 >= s.len() {
                    tot2
                } else {
                    gan_nhat(s, g, dau, j + 1, tot2)
                }
            },
        }
    }
}

/// Chỗ ngờ sau khi dời về văn bản mới: neo bằng chính chữ gốc, chọn lần xuất
/// hiện gần vị trí cũ nhất; không tìm thấy thì bỏ.
pub open spec fn doi_mot(sau: Seq<char>, cx: ChoXetV) -> Option<ChoXetV> {
    match gan_nhat(sau, cx.goc, cx.dau as int, 0, None) {
        Some(vt) => Some(
            ChoXetV {
                dau: vt as nat,
                cuoi: (vt + vstd::utf8::encode_utf8(cx.goc).len()) as nat,
                ..cx
            },
        ),
        None => None,
    }
}

/// Dời vị trí các chỗ ngờ sau khi chuỗi đã đổi.
pub open spec fn doi_vi_tri_spec(truoc: Seq<char>, sau: Seq<char>, ds: Seq<ChoXetV>) -> Seq<ChoXetV> {
    if truoc == sau {
        ds
    } else {
        ds.filter_map(|cx: ChoXetV| doi_mot(sau, cx))
    }
}

/// Dãy các chỗ ngờ ở dạng toán học.
pub open spec fn dscx(v: Seq<ChoXet>) -> Seq<ChoXetV> {
    v.map_values(|c: ChoXet| c@)
}

fn gan_nhat_exec(v: &Vec<char>, b: &Vec<usize>, g: &Vec<char>, dau: usize) -> (r: Option<usize>)
    requires
        b@.len() == v@.len() + 1,
        forall|q: int| 0 <= q <= v@.len() ==> #[trigger] b@[q] == vt_byte(v@, q),
    ensures
        match r {
            Some(x) => gan_nhat(v@, g@, dau as int, 0, None) == Some(x as int),
            None => gan_nhat(v@, g@, dau as int, 0, None) is None,
        },
        r matches Some(x) ==> x + vstd::utf8::encode_utf8(g@).len() <= vt_byte(v@, v@.len() as int),
{
    let ghost s = v@;
    let n = v.len();
    let mut tot: Option<usize> = None;
    let mut k: usize = 0;
    proof {
        lemma_vt_byte_tang(s, 0, n as int);
    }
    loop
        invariant
            k <= n,
            n == s.len(),
            v@ == s,
            b@.len() == s.len() + 1,
            forall|q: int| 0 <= q <= s.len() ==> #[trigger] b@[q] == vt_byte(s, q),
            tot matches Some(t) ==> t + vstd::utf8::encode_utf8(g@).len() <= vt_byte(s, n as int),
            gan_nhat(s, g@, dau as int, 0, None) == gan_nhat(s, g@, dau as int, k as int, match tot {
                Some(t) => Some(t as int),
                None => None,
            }),
        decreases n + 1 - k,
    {
        let phan = cat_doan(v.as_slice(), k, n);
        let tim = crate::tach_chuoi::tim_chuoi_exec(phan.as_slice(), g.as_slice());
        proof {
            lemma_tim_chuoi_doi(s, g@, k as int);
        }
        match tim {
            None => {
                return tot;
            },
            Some(j0) => {
                proof {
                    crate::tach_chuoi::lemma_tim_chuoi(phan@, g@, 0);
                    crate::tach_chuoi::lemma_tim_chuoi(s, g@, k as int);
                }
                let j = k + j0;
                proof {
                    lemma_vt_byte_tang(s, j as int, n as int);
                    lemma_vt_khop(s, g@, j as int);
                    lemma_vt_byte_tang(s, j + g@.len(), n as int);
                }
                let vt = b[j];
                let moi_tot = match tot {
                    None => Some(vt),
                    Some(t) => {
                        let a = if vt >= dau { vt - dau } else { dau - vt };
                        let c = if t >= dau { t - dau } else { dau - t };
                        if a < c { Some(vt) } else { Some(t) }
                    },
                };
                tot = moi_tot;
                if j >= n || n - j <= 1 {
                    return tot;
                }
                k = j + 1;
            },
        }
    }
}

/// Chỗ `g` xuất hiện ở ký tự thứ `j` thì nó chiếm đúng số byte mã của `g`.
proof fn lemma_vt_khop(s: Seq<char>, g: Seq<char>, j: int)
    requires
        0 <= j,
        j + g.len() <= s.len(),
        s.subrange(j, j + g.len()) == g,
    ensures
        vt_byte(s, j + g.len()) == vt_byte(s, j) + vstd::utf8::encode_utf8(g).len(),
{
    assert(s.take(j + g.len()) =~= s.take(j) + g);
    crate::chuoi::lemma_ma_noi(s.take(j), g);
}

/// Đảo ngược một danh sách.
pub(crate) fn dao<T>(v: Vec<T>) -> (r: Vec<T>)
    ensures
        r@ == v@.reverse(),
{
    let mut v = v;
    let mut r: Vec<T> = Vec::new();
    let ghost g = v@;
    while v.len() > 0
        invariant
            v@ + r@.reverse() == g,
        decreases v.len(),
    {
        let ghost a = v@;
        let ghost c = r@;
        let x = v.pop().unwrap();
        r.push(x);
        assert(a =~= v@.push(x));
        assert(r@.reverse() =~= seq![x] + c.reverse());
        assert(v@ + r@.reverse() =~= a + c.reverse());
    }
    assert(r@.reverse() =~= g);
    assert(r@ =~= g.reverse()) by {
        assert(r@.reverse().reverse() =~= r@);
    }
    r
}

/// Dời vị trí các chỗ ngờ sau khi chuỗi đã đổi: tìm lại chữ gốc quanh vị trí
/// cũ trong chuỗi mới; không tìm thấy thì bỏ chỗ ấy.
fn doi_vi_tri(truoc: &str, sau: &str, cho_xet: &mut Vec<ChoXet>)
    ensures
        dscx(final(cho_xet)@) == doi_vi_tri_spec(truoc@, sau@, dscx(old(cho_xet)@)),
{
    if bang_nhau(ky_tu(truoc).as_slice(), ky_tu(sau).as_slice()) {
        return;
    }
    let v = ky_tu(sau);
    let b = bang_vi_tri(sau);
    let mut cu: Vec<ChoXet> = Vec::new();
    std::mem::swap(&mut cu, cho_xet);
    let ghost g = dscx(cu@);
    let mut nguon = dao(cu);
    let n = nguon.len();
    let mut i: usize = 0;
    assert(g.take(0).filter_map(|cx: ChoXetV| doi_mot(sau@, cx)) =~= Seq::<ChoXetV>::empty());
    assert(dscx(cho_xet@) =~= Seq::<ChoXetV>::empty());
    while nguon.len() > 0
        invariant
            i + nguon@.len() == n,
            n == g.len(),
            v@ == sau@,
            b@.len() == v@.len() + 1,
            forall|q: int| 0 <= q <= v@.len() ==> #[trigger] b@[q] == vt_byte(v@, q),
            dscx(nguon@).reverse() == g.skip(i as int),
            dscx(cho_xet@) == g.take(i as int).filter_map(|cx: ChoXetV| doi_mot(sau@, cx)),
        decreases nguon.len(),
    {
        let ghost truoc_n = dscx(nguon@);
        let mut cx = nguon.pop().unwrap();
        proof {
            assert(truoc_n.reverse()[0] == cx@);
            assert(g.skip(i as int)[0] == g[i as int]);
            assert(dscx(nguon@) =~= truoc_n.drop_last());
            assert(truoc_n.drop_last().reverse() =~= truoc_n.reverse().skip(1));
            assert(g.skip(i as int).skip(1) =~= g.skip(i + 1));
            g.lemma_filter_map_take_succ(|cx: ChoXetV| doi_mot(sau@, cx), i as int);
        }
        let goc_v = ky_tu(cx.goc.as_str());
        match gan_nhat_exec(&v, &b, &goc_v, cx.pham_vi.start) {
            Some(vt) => {
                let dai = cx.goc.as_str().as_bytes().len();
                assert(b@[v@.len() as int] == vt_byte(v@, v@.len() as int));
                let ghost truoc = dscx(cho_xet@);
                cx.pham_vi = vt..vt + dai;
                cho_xet.push(cx);
                assert(dscx(cho_xet@) =~= truoc.push(cho_xet@[truoc.len() as int]@));
            },
            None => {},
        }
        i += 1;
    }
    assert(g.take(n as int) =~= g);
}

proof fn lemma_tim_chuoi_doi(s: Seq<char>, g: Seq<char>, k: int)
    requires
        0 <= k <= s.len(),
    ensures
        match crate::tach_chuoi::tim_chuoi(s.subrange(k, s.len() as int), g, 0) {
            Some(j) => crate::tach_chuoi::tim_chuoi(s, g, k) == Some(k + j),
            None => crate::tach_chuoi::tim_chuoi(s, g, k) is None,
        },
    decreases s.len() - k,
{
    lemma_tim_chuoi_doi_tu(s, g, k, 0);
}

proof fn lemma_tim_chuoi_doi_tu(s: Seq<char>, g: Seq<char>, k: int, i: int)
    requires
        0 <= k <= s.len(),
        0 <= i,
    ensures
        match crate::tach_chuoi::tim_chuoi(s.subrange(k, s.len() as int), g, i) {
            Some(j) => crate::tach_chuoi::tim_chuoi(s, g, k + i) == Some(k + j),
            None => crate::tach_chuoi::tim_chuoi(s, g, k + i) is None,
        },
    decreases s.len() + 1 - (k + i),
{
    let t = s.subrange(k, s.len() as int);
    if k + i + g.len() <= s.len() {
        assert(t.subrange(i, i + g.len()) =~= s.subrange(k + i, k + i + g.len()));
        if s.subrange(k + i, k + i + g.len()) != g {
            lemma_tim_chuoi_doi_tu(s, g, k, i + 1);
        }
    }
}


/// Những gì được phép sửa. Ngưỡng mô hình (số thực) do phần gọi mô hình giữ.
#[derive(Debug, Clone)]
pub struct TuyChon {
    pub chuan_hoa: CaiDat,
    /// Kéo cả sách về một kiểu đặt dấu thanh.
    pub nhat_quan_dau_thanh: bool,
    /// Sửa tiếng sai cấu tạo.
    pub am_tiet_sai: bool,
    /// Dò cặp dễ nhầm.
    pub de_nham: bool,
    /// Đụng cả vào chữ không dấu. **Mặc định tắt**.
    pub chu_khong_dau: bool,
    /// Hỏi mô hình theo lối chấm cả câu hay lối điền chỗ trống.
    pub kieu_cham: KieuCham,
}

impl Default for TuyChon {
    fn default() -> (r: Self)
        ensures
            r.chuan_hoa == (CaiDat {
                unicode: true,
                khoang_trang: true,
                dau_cau: true,
                gom_dau_cham: true,
                dung_ky_tu_ba_cham: false,
                nhay_cong: false,
            }),
            r.nhat_quan_dau_thanh,
            r.am_tiet_sai,
            r.de_nham,
            !r.chu_khong_dau,
            r.kieu_cham == KieuCham::CaCau,
    {
        TuyChon {
            chuan_hoa: CaiDat::default(),
            nhat_quan_dau_thanh: true,
            am_tiet_sai: true,
            de_nham: true,
            chu_khong_dau: false,
            kieu_cham: KieuCham::CaCau,
        }
    }
}

/// Bộ soát: tuỳ chọn, bảng tra, từ điển, kiểu đặt dấu của sách, và những gì đếm
/// được từ chính cuốn sách.
pub struct BoSoat {
    pub tuy_chon: TuyChon,
    bang_de_nham: crate::de_nham::Bang,
    bang_typo: crate::typo::Bang,
    tu_dien: TuDien,
    kieu: Kieu,
    ten_rieng: BangChu<()>,
    cum_ten_rieng: BangChu<()>,
    tu_dung: BangChu<()>,
}

/// Trạng thái khi chạy các tầng trên một đoạn.
pub struct TrangThaiSoat {
    pub chu: Seq<char>,
    pub da_sua: Seq<SuaDoiV>,
    pub cho_xet: Seq<ChoXetV>,
}

/// Áp một tầng: văn bản mới, ghi thêm các phép áp được.
pub open spec fn buoc_ghi(st: TrangThaiSoat, ds: Seq<SuaDoiV>) -> TrangThaiSoat {
    let (m, g) = ghi_nhan_spec(st.chu, ds);
    TrangThaiSoat { chu: m, da_sua: st.da_sua + g, cho_xet: st.cho_xet }
}

/// Phép sửa ghi cho một chỗ khác nhau giữa bản gốc và bản dựng lại NFC.
pub open spec fn phep_nfc(chu: Seq<char>, k: KhacV) -> SuaDoiV {
    SuaDoiV {
        dau: k.dau,
        cuoi: k.cuoi,
        goc: doan_byte(chu, k.dau as int, k.cuoi as int),
        thay_bang: k.moi,
        loai: Loai::Unicode,
        do_chac: DoChac::Chac,
        ly_do: "dựng lại tổ hợp Unicode (NFC)"@,
    }
}

/// Danh sách chỗ khác nhau mà phép đối chiếu có thể trả cho hai bản `cu`, `moi`.
pub open spec fn khac_hop_le(cu: Seq<char>, moi: Seq<char>, ks: Seq<KhacV>) -> bool {
    &&& (cu == moi ==> ks.len() == 0)
    &&& (cu != moi && so_manh(cu) * so_manh(moi) > 4000000 ==> ks == seq![
        KhacV { dau: 0, cuoi: vstd::utf8::encode_utf8(cu).len(), moi: moi },
    ])
    &&& ap_khac(cu, ks) == moi
    &&& vi_tri_dung(cu, ks)
    &&& forall|q: int| 0 <= q < ks.len() ==> (#[trigger] ks[q]).dau < ks[q].cuoi || ks[q].moi.len() > 0
}

/// Tầng dựng lại NFC: `kn` là các chỗ khác nhau mà phép đối chiếu trả về.
pub open spec fn buoc_nfc(st: TrangThaiSoat, bat: bool, kn: Seq<KhacV>) -> TrangThaiSoat {
    if bat && nfc_cua(st.chu) != st.chu {
        TrangThaiSoat {
            chu: nfc_cua(st.chu),
            da_sua: st.da_sua + kn.map_values(|k: KhacV| phep_nfc(st.chu, k)),
            cho_xet: st.cho_xet,
        }
    } else {
        st
    }
}

/// Chỗ ngờ dựng từ một đề xuất cặp dễ nhầm tuỳ nghĩa.
pub open spec fn cho_xet_tu(x: SuaDoiV) -> ChoXetV {
    ChoXetV {
        dau: x.dau,
        cuoi: x.cuoi,
        goc: x.goc,
        ung_vien: seq![x.thay_bang],
        loai: x.loai,
        ly_do: x.ly_do,
        bang_chung: BangChung::Khong,
    }
}

/// Tầng cặp dễ nhầm: phần chắc chắn áp ngay, phần tuỳ nghĩa thành chỗ ngờ rồi
/// được dời vị trí theo văn bản mới.
pub open spec fn buoc_de_nham(st: TrangThaiSoat, tat_ca: Seq<SuaDoiV>) -> TrangThaiSoat {
    let chac = tat_ca.filter(|x: SuaDoiV| x.do_chac == DoChac::Chac);
    let mo_ho = tat_ca.filter(|x: SuaDoiV| x.do_chac != DoChac::Chac);
    let cx = st.cho_xet + mo_ho.map_values(|x: SuaDoiV| cho_xet_tu(x));
    let (m, g) = ghi_nhan_spec(st.chu, chac);
    TrangThaiSoat { chu: m, da_sua: st.da_sua + g, cho_xet: doi_vi_tri_spec(st.chu, m, cx) }
}

/// Kết quả ở dạng toán học.
pub open spec fn ket_qua_v(kq: KetQua) -> TrangThaiSoat {
    TrangThaiSoat { chu: kq.chu@, da_sua: dsv(kq.da_sua@), cho_xet: dscx(kq.cho_xet@) }
}

impl BoSoat {
    /// Bảng cặp dễ nhầm: (phần luôn sai, phần tuỳ nghĩa).
    pub closed spec fn bang_dn(&self) -> (Seq<crate::de_nham::MucV>, Seq<crate::de_nham::MucV>) {
        (self.bang_de_nham.ds_luon_sai(), self.bang_de_nham.ds_tuy_nghia())
    }

    /// Tuỳ chọn của bộ soát.
    pub closed spec fn tuy_chon_v(&self) -> TuyChon {
        self.tuy_chon
    }

    /// Kiểu đặt dấu của sách.
    pub closed spec fn kieu_v(&self) -> Kieu {
        self.kieu
    }

    /// Tên riêng, cụm tên riêng và vốn từ đếm được từ cuốn sách.
    pub closed spec fn tu_sach(&self) -> (Set<Seq<char>>, Set<Seq<char>>, Set<Seq<char>>) {
        (self.ten_rieng@.dom(), self.cum_ten_rieng@.dom(), self.tu_dung@.dom())
    }

    /// Bất biến của các bảng.
    pub closed spec fn hop_le(&self) -> bool {
        &&& self.tu_dien.hop_le()
        &&& self.bang_typo.hop_le()
        &&& self.ten_rieng.hop_le()
        &&& self.cum_ten_rieng.hop_le()
        &&& self.tu_dung.hop_le()
    }

    /// Từ điển của bộ soát.
    pub closed spec fn tu_dien_v(&self) -> TuDien {
        self.tu_dien
    }

    /// Bảng typo của bộ soát.
    pub closed spec fn bang_typo_v(&self) -> Map<Seq<char>, Seq<Seq<char>>> {
        self.bang_typo.muc()
    }

    /// Dựng bộ soát từ tuỳ chọn, kiểu đặt dấu của sách, từ điển và hai bảng tra.
    pub fn moi(
        tuy_chon: TuyChon,
        kieu: Kieu,
        tu_dien: TuDien,
        bang_de_nham: crate::de_nham::Bang,
        bang_typo: crate::typo::Bang,
    ) -> (r: BoSoat)
        requires
            tu_dien.hop_le(),
            bang_typo.hop_le(),
        ensures
            r.hop_le(),
            r.tuy_chon_v() == tuy_chon,
            r.kieu_v() == kieu,
            r.bang_dn() == (bang_de_nham.ds_luon_sai(), bang_de_nham.ds_tuy_nghia()),
            r.tu_dien_v() == tu_dien,
            r.bang_typo_v() == bang_typo.muc(),
            r.tu_sach() == (Set::<Seq<char>>::empty(), Set::<Seq<char>>::empty(), Set::<Seq<char>>::empty()),
    {
        BoSoat {
            tuy_chon,
            bang_de_nham,
            bang_typo,
            tu_dien,
            kieu,
            ten_rieng: BangChu::new(),
            cum_ten_rieng: BangChu::new(),
            tu_dung: BangChu::new(),
        }
    }

    /// Danh sách tên riêng đếm được từ chính cuốn sách — xem [`gom_ten_rieng`].
    pub fn voi_ten_rieng(self, ten: BangChu<()>) -> (r: BoSoat)
        requires
            self.hop_le(),
            ten.hop_le(),
        ensures
            r.hop_le(),
            r.tuy_chon_v() == self.tuy_chon_v(),
            r.kieu_v() == self.kieu_v(),
            r.bang_dn() == self.bang_dn(),
            r.tu_dien_v() == self.tu_dien_v(),
            r.bang_typo_v() == self.bang_typo_v(),
            r.tu_sach() == (ten@.dom(), self.tu_sach().1, self.tu_sach().2),
    {
        let mut r = self;
        r.ten_rieng = ten;
        r
    }

    /// Từ điển riêng đếm được từ chính cuốn sách — xem [`gom_cum_ten_rieng`].
    pub fn voi_cum_ten_rieng(self, cum: BangChu<()>) -> (r: BoSoat)
        requires
            self.hop_le(),
            cum.hop_le(),
        ensures
            r.hop_le(),
            r.tuy_chon_v() == self.tuy_chon_v(),
            r.kieu_v() == self.kieu_v(),
            r.bang_dn() == self.bang_dn(),
            r.tu_dien_v() == self.tu_dien_v(),
            r.bang_typo_v() == self.bang_typo_v(),
            r.tu_sach() == (self.tu_sach().0, cum@.dom(), self.tu_sach().2),
    {
        let mut r = self;
        r.cum_ten_rieng = cum;
        r
    }

    /// Vốn từ đếm được từ chính cuốn sách — xem [`gom_tu_dung`].
    pub fn voi_tu_dung(self, tu: BangChu<()>) -> (r: BoSoat)
        requires
            self.hop_le(),
            tu.hop_le(),
        ensures
            r.hop_le(),
            r.tuy_chon_v() == self.tuy_chon_v(),
            r.kieu_v() == self.kieu_v(),
            r.bang_dn() == self.bang_dn(),
            r.tu_dien_v() == self.tu_dien_v(),
            r.bang_typo_v() == self.bang_typo_v(),
            r.tu_sach() == (self.tu_sach().0, self.tu_sach().1, tu@.dom()),
    {
        let mut r = self;
        r.tu_dung = tu;
        r
    }
}

/// Bộ soát ở dạng toán học: tuỳ chọn, kiểu đặt dấu, bảng cặp dễ nhầm, hai kho
/// của từ điển, bảng typo, và ba bảng đếm được từ cuốn sách.
pub struct BoSoatV {
    pub tuy_chon: TuyChon,
    pub kieu: Kieu,
    pub dn: (Seq<crate::de_nham::MucV>, Seq<crate::de_nham::MucV>),
    pub am: Set<Seq<char>>,
    pub ghep: Set<Seq<char>>,
    pub typo: Map<Seq<char>, Seq<Seq<char>>>,
    pub ten: Set<Seq<char>>,
    pub cum: Set<Seq<char>>,
    pub dung: Set<Seq<char>>,
}

impl View for BoSoat {
    type V = BoSoatV;

    open spec fn view(&self) -> BoSoatV {
        BoSoatV {
            tuy_chon: self.tuy_chon_v(),
            kieu: self.kieu_v(),
            dn: self.bang_dn(),
            am: self.tu_dien_v().kho_am_tiet(),
            ghep: self.tu_dien_v().kho_tu_ghep(),
            typo: self.bang_typo_v(),
            ten: self.tu_sach().0,
            cum: self.tu_sach().1,
            dung: self.tu_sach().2,
        }
    }
}

/// Các tầng không cần ngữ cảnh chạy trên một đoạn, với `kn` là các chỗ khác
/// nhau mà phép đối chiếu trả về ở tầng dựng lại NFC.
pub open spec fn soat_spec(
    tc: TuyChon,
    kieu: Kieu,
    dn: (Seq<crate::de_nham::MucV>, Seq<crate::de_nham::MucV>),
    van_ban: Seq<char>,
    kn: Seq<KhacV>,
) -> TrangThaiSoat {
    let cd = tc.chuan_hoa;
    let st0 = TrangThaiSoat { chu: van_ban, da_sua: seq![], cho_xet: seq![] };
    let st1 = buoc_ghi(st0, if cd.unicode { unicode_den(van_ban, van_ban.len() as int) } else { seq![] });
    let st2 = buoc_nfc(st1, cd.unicode, kn);
    let st3 = buoc_ghi(st2, if cd.dau_cau { dau_cau_spec(st2.chu, cd) } else { seq![] });
    let st4 = buoc_ghi(st3, if cd.khoang_trang { khoang_trang_spec(st3.chu) } else { seq![] });
    let st5 = buoc_ghi(
        st4,
        soat_den(st4.chu, cat_spec(st4.chu).len() as int, kieu == Kieu::Moi, tc.nhat_quan_dau_thanh),
    );
    if tc.de_nham {
        buoc_de_nham(st5, crate::de_nham::soat_dn(st5.chu, dn.0, dn.1))
    } else {
        st5
    }
}

fn them_nfc(chu: &str, nfc: &str, kq: &mut KetQua) -> (r: Ghost<Seq<KhacV>>)
    ensures
        r@ == crate::doi_chieu::khac_spec(chu@, nfc@),
        khac_hop_le(chu@, nfc@, r@),
        dsv(final(kq).da_sua@) == dsv(old(kq).da_sua@) + r@.map_values(|k: KhacV| phep_nfc(chu@, k)),
        final(kq).chu@ == old(kq).chu@,
        final(kq).cho_xet@ == old(kq).cho_xet@,
{
    let ks = crate::doi_chieu::so(chu, nfc);
    let ghost kv = dsk(ks@);
    let v = ky_tu(chu);
    let b = bang_vi_tri(chu);
    let ghost d0 = dsv(kq.da_sua@);
    let mut i: usize = 0;
    let ly = "dựng lại tổ hợp Unicode (NFC)";
    while i < ks.len()
        invariant
            i <= ks@.len(),
            kv == dsk(ks@),
            ly@ == "dựng lại tổ hợp Unicode (NFC)"@,
            vi_tri_dung(chu@, kv),
            v@ == chu@,
            b@.len() == chu@.len() + 1,
            forall|q: int| 0 <= q <= chu@.len() ==> #[trigger] b@[q] == vt_byte(chu@, q),
            dsv(kq.da_sua@) == d0 + kv.take(i as int).map_values(|k: KhacV| phep_nfc(chu@, k)),
            kq.chu@ == old(kq).chu@,
            kq.cho_xet@ == old(kq).cho_xet@,
        decreases ks.len() - i,
    {
        let k = &ks[i];
        assert(kv[i as int] == k@);
        assert(exists|j: int| 0 <= j <= chu@.len() && vt_byte(chu@, j) == (#[trigger] kv[i as int]).dau);
        assert(exists|j: int| 0 <= j <= chu@.len() && vt_byte(chu@, j) == (#[trigger] kv[i as int]).cuoi);
        proof {
            crate::chuoi::lemma_ranh_gioi(chu@, k.cu.start as int);
            crate::chuoi::lemma_ranh_gioi(chu@, k.cu.end as int);
        }
        let a = crate::sua::chi_so_exec(&b, k.cu.start, Ghost(chu@));
        let e = crate::sua::chi_so_exec(&b, k.cu.end, Ghost(chu@));
        proof {
            if a > e {
                lemma_vt_byte_tang(chu@, e as int, a as int);
            }
        }
        let goc = chuoi(cat_doan(v.as_slice(), a, e).as_slice());
        let ghost truoc = dsv(kq.da_sua@);
        let phep = SuaDoi::moi(k.cu.start..k.cu.end, goc.as_str(), k.moi.as_str(), Loai::Unicode, DoChac::Chac, ly);
        kq.da_sua.push(phep);
        proof {
            assert(kv.take(i + 1) =~= kv.take(i as int).push(kv[i as int]));
            assert(dsv(kq.da_sua@) =~= truoc.push(phep_nfc(chu@, kv[i as int])));
        }
        i += 1;
    }
    assert(kv.take(kv.len() as int) =~= kv);
    Ghost(kv)
}


/// Chép một chuỗi.
pub(crate) fn chep_chuoi(s: &str) -> (r: String)
    ensures
        r@ == s@,
{
    chuoi(ky_tu(s).as_slice())
}

fn tach_chac(v: &Vec<SuaDoi>) -> (r: (Vec<SuaDoi>, Vec<SuaDoi>))
    ensures
        dsv(r.0@) == dsv(v@).filter(|x: SuaDoiV| x.do_chac == DoChac::Chac),
        dsv(r.1@) == dsv(v@).filter(|x: SuaDoiV| x.do_chac != DoChac::Chac),
{
    let ghost g = dsv(v@);
    let mut a: Vec<SuaDoi> = Vec::new();
    let mut b: Vec<SuaDoi> = Vec::new();
    let mut i: usize = 0;
    proof {
        reveal(Seq::filter);
        assert(g.take(0) =~= Seq::<SuaDoiV>::empty());
        assert(dsv(a@) =~= Seq::<SuaDoiV>::empty());
        assert(dsv(b@) =~= Seq::<SuaDoiV>::empty());
    }
    while i < v.len()
        invariant
            i <= v@.len(),
            g == dsv(v@),
            dsv(a@) == g.take(i as int).filter(|x: SuaDoiV| x.do_chac == DoChac::Chac),
            dsv(b@) == g.take(i as int).filter(|x: SuaDoiV| x.do_chac != DoChac::Chac),
        decreases v.len() - i,
    {
        proof {
            reveal(Seq::filter);
            assert(g.take(i + 1).drop_last() =~= g.take(i as int));
            assert(g.take(i + 1).last() == g[i as int]);
        }
        let ghost ta = dsv(a@);
        let ghost tb = dsv(b@);
        if v[i].do_chac == DoChac::Chac {
            a.push(v[i].clone());
            assert(dsv(a@) =~= ta.push(g[i as int]));
        } else {
            b.push(v[i].clone());
            assert(dsv(b@) =~= tb.push(g[i as int]));
        }
        i += 1;
    }
    assert(g.take(g.len() as int) =~= g);
    (a, b)
}

/// Thêm vào cuối `ds` một chỗ ngờ cho mỗi đề xuất tuỳ nghĩa.
fn them_cho_xet(mo_ho: &Vec<SuaDoi>, ds: &mut Vec<ChoXet>)
    ensures
        dscx(final(ds)@) == dscx(old(ds)@) + dsv(mo_ho@).map_values(|x: SuaDoiV| cho_xet_tu(x)),
{
    let ghost mv = dsv(mo_ho@);
    let ghost cx0 = dscx(ds@);
    let mut i: usize = 0;
    while i < mo_ho.len()
        invariant
            i <= mo_ho@.len(),
            mv == dsv(mo_ho@),
            dscx(ds@) == cx0 + mv.take(i as int).map_values(|x: SuaDoiV| cho_xet_tu(x)),
        decreases mo_ho.len() - i,
    {
        let x = &mo_ho[i];
        assert(mv[i as int] == x@);
        let cx = ChoXet {
            pham_vi: x.pham_vi.start..x.pham_vi.end,
            goc: chep_chuoi(x.goc.as_str()),
            ung_vien: vec![chep_chuoi(x.thay_bang.as_str())],
            loai: x.loai,
            ly_do: chep_chuoi(x.ly_do.as_str()),
            bang_chung: BangChung::Khong,
        };
        assert(cx@.ung_vien =~= seq![x@.thay_bang]);
        let ghost truoc = dscx(ds@);
        ds.push(cx);
        proof {
            assert(mv.take(i + 1) =~= mv.take(i as int).push(mv[i as int]));
            assert(dscx(ds@) =~= truoc.push(cho_xet_tu(mv[i as int])));
        }
        i += 1;
    }
    assert(mv.take(mv.len() as int) =~= mv);
}

/// Chữ sau tầng Unicode (trước khi dựng lại NFC).
pub open spec fn chu_sau_unicode(tc: TuyChon, van_ban: Seq<char>) -> Seq<char> {
    ghi_nhan_spec(
        van_ban,
        if tc.chuan_hoa.unicode { unicode_den(van_ban, van_ban.len() as int) } else { seq![] },
    ).0
}

/// Mọi tầng trên một đoạn: các tầng của [`soat_spec`], rồi tầng tiếng sai trên
/// chữ đã sửa nếu được bật.
pub open spec fn soat_du_spec(bo: BoSoatV, van_ban: Seq<char>, kn: Seq<KhacV>) -> TrangThaiSoat {
    let st = soat_spec(bo.tuy_chon, bo.kieu, bo.dn, van_ban, kn);
    if bo.tuy_chon.am_tiet_sai {
        TrangThaiSoat { chu: st.chu, da_sua: st.da_sua, cho_xet: st.cho_xet + am_tiet_sai_spec(bo, st.chu) }
    } else {
        st
    }
}

/// Các chỗ khác nhau mà tầng dựng lại NFC ghi cho `van_ban`: phép đối chiếu giữa
/// chữ sau tầng Unicode và dạng NFC của nó, khi hai bản khác nhau.
pub open spec fn kn_nfc(tc: TuyChon, van_ban: Seq<char>) -> Seq<KhacV> {
    let c1 = chu_sau_unicode(tc, van_ban);
    if tc.chuan_hoa.unicode && nfc_cua(c1) != c1 {
        crate::doi_chieu::khac_spec(c1, nfc_cua(c1))
    } else {
        seq![]
    }
}

/// Kết quả soát một đoạn ở dạng toán học.
pub open spec fn soat_doan_spec(bo: BoSoatV, van_ban: Seq<char>) -> TrangThaiSoat {
    soat_du_spec(bo, van_ban, kn_nfc(bo.tuy_chon, van_ban))
}

/// `kn` là danh sách chỗ khác nhau hợp lệ cho tầng dựng lại NFC trên `van_ban`.
pub open spec fn nfc_hop_le(tc: TuyChon, van_ban: Seq<char>, kn: Seq<KhacV>) -> bool {
    let c1 = chu_sau_unicode(tc, van_ban);
    tc.chuan_hoa.unicode && nfc_cua(c1) != c1 ==> khac_hop_le(c1, nfc_cua(c1), kn)
}

/// Số ký tự của `t[..n]` mang dấu thanh.
pub open spec fn so_dau_den(t: Seq<char>, n: int) -> nat
    decreases n,
{
    if n <= 0 {
        0
    } else {
        so_dau_den(t, n - 1) + (if crate::am_tiet::bo_thanh_spec(t[n - 1]).1 != crate::am_tiet::NGANG {
            1nat
        } else {
            0nat
        })
    }
}

fn dem_dau(chu: &str) -> (r: usize)
    ensures
        r == so_dau_den(chu@, chu@.len() as int),
{
    let v = ky_tu(chu);
    let mut n: usize = 0;
    let mut i: usize = 0;
    while i < v.len()
        invariant
            i <= v@.len(),
            v@ == chu@,
            n == so_dau_den(chu@, i as int),
            n <= i,
        decreases v.len() - i,
    {
        let (_, t) = crate::am_tiet::bo_thanh(v[i]);
        if t != crate::am_tiet::NGANG {
            n += 1;
        }
        i += 1;
    }
    n
}

/// Chữ đặt trong cặp dấu huyền.
pub open spec fn bq(x: Seq<char>) -> Seq<char> {
    "`"@ + x + "`"@
}

/// Lý do ghi cho một chữ dính tách dứt khoát.
pub open spec fn ly_do_tach(chu: Seq<char>, top: Seq<char>) -> Seq<char> {
    bq(chu) + " là hai tiếng dính liền — "@ + bq(top)
}

/// Lý do ghi cho một tiếng sai, theo bằng chứng của ứng viên đầu bảng `u0`.
pub open spec fn ly_do_sai(bc: BangChung, co_tach: bool, chu: Seq<char>, u0: Seq<char>) -> Seq<char> {
    match bc {
        BangChung::Typo => bq(chu) + " là typo hay gặp, bảng chỉ ghi đúng một cách sửa — "@ + bq(u0),
        BangChung::CumTenRieng => bq(chu) + " không có trong từ điển; "@ + bq(u0)
            + " dựng lại một cụm lặp lại                      nhiều lần trong chính cuốn sách này"@,
        BangChung::TuGhep => bq(chu) + " không có trong từ điển; "@ + bq(u0) + " ghép với chữ bên cạnh thành từ có thật"@,
        BangChung::DauPhu => bq(chu) + " chỉ thiếu một dấu phụ — "@ + bq(u0) + ", và không có cách sửa nào rẻ bằng"@,
        BangChung::TachDinh => bq(chu) + " là hai tiếng dính liền"@,
        BangChung::Khong => if co_tach {
            bq(chu) + " có thể là chữ dính, cũng có thể là lỗi gõ"@
        } else {
            bq(chu) + " không có trong từ điển và sai cấu tạo"@
        },
    }
}

fn bq_exec(x: &str) -> (r: Vec<char>)
    ensures
        r@ == bq(x@),
{
    let d = ky_tu("`");
    noi(noi(d.as_slice(), ky_tu(x).as_slice()).as_slice(), d.as_slice())
}

fn ly_do_tach_exec(chu: &str, top: &str) -> (r: String)
    ensures
        r@ == ly_do_tach(chu@, top@),
{
    let a = noi(bq_exec(chu).as_slice(), ky_tu(" là hai tiếng dính liền — ").as_slice());
    chuoi(noi(a.as_slice(), bq_exec(top).as_slice()).as_slice())
}

fn ly_do_sai_exec(bc: BangChung, co_tach: bool, chu: &str, u0: &str) -> (r: String)
    ensures
        r@ == ly_do_sai(bc, co_tach, chu@, u0@),
{
    let c = bq_exec(chu);
    let u = bq_exec(u0);
    let v = match bc {
        BangChung::Typo => noi(noi(c.as_slice(), ky_tu(" là typo hay gặp, bảng chỉ ghi đúng một cách sửa — ").as_slice()).as_slice(), u.as_slice()),
        BangChung::CumTenRieng => noi(
            noi(noi(c.as_slice(), ky_tu(" không có trong từ điển; ").as_slice()).as_slice(), u.as_slice()).as_slice(),
            ky_tu(" dựng lại một cụm lặp lại                      nhiều lần trong chính cuốn sách này").as_slice(),
        ),
        BangChung::TuGhep => noi(
            noi(noi(c.as_slice(), ky_tu(" không có trong từ điển; ").as_slice()).as_slice(), u.as_slice()).as_slice(),
            ky_tu(" ghép với chữ bên cạnh thành từ có thật").as_slice(),
        ),
        BangChung::DauPhu => noi(
            noi(noi(c.as_slice(), ky_tu(" chỉ thiếu một dấu phụ — ").as_slice()).as_slice(), u.as_slice()).as_slice(),
            ky_tu(", và không có cách sửa nào rẻ bằng").as_slice(),
        ),
        BangChung::TachDinh => noi(c.as_slice(), ky_tu(" là hai tiếng dính liền").as_slice()),
        BangChung::Khong => if co_tach {
            noi(c.as_slice(), ky_tu(" có thể là chữ dính, cũng có thể là lỗi gõ").as_slice())
        } else {
            noi(c.as_slice(), ky_tu(" không có trong từ điển và sai cấu tạo").as_slice())
        },
    };
    chuoi(v.as_slice())
}

/// Các cách tách một chữ dính, đã chèn khoảng trắng vào chính chữ gốc.
pub open spec fn tach_duoc_spec(kho: Set<Seq<char>>, chu: Seq<char>) -> Seq<Seq<char>> {
    crate::tu_dien::tach_dinh_spec(kho, chu).map_values(|x: Seq<char>| chen_khoang_trang_spec(chu, x))
}

/// Cách tách đứng đầu là **dứt khoát**: chia mạnh, và hoặc là duy nhất hoặc dựng
/// lại nguyên một từ ghép có thật.
pub open spec fn tach_chac_spec(tach: Seq<Seq<char>>, ghep: Set<Seq<char>>) -> bool {
    tach.len() > 0 && crate::tu_dien::tach_manh_spec(thuong_cua(tach[0])) && (tach.len() == 1 || ghep.contains(
        thuong_cua(tach[0]),
    ))
}

/// Tiếng `s` cần xét ở tầng tiếng sai: đúng dạng cần kiểm, không có trong từ
/// điển, sai cấu tạo, và không phải tên riêng của sách.
pub open spec fn can_xet(bo: BoSoatV, chu: Seq<char>) -> bool {
    let dang_kiem = match dang_tu_spec(chu) {
        DangTu::TiengViet => true,
        DangTu::KhongDau => bo.tuy_chon.chu_khong_dau,
        _ => false,
    };
    dang_kiem && !co_am_tiet_spec(bo.am, chu) && crate::am_tiet::tach_spec(chu).is_none()
        && !bo.ten.contains(thuong_cua(chu))
}

/// Đáp án bảng typo cho một chữ, nếu có.
pub open spec fn typo_cua(bo: BoSoatV, chu: Seq<char>) -> Option<Seq<Seq<char>>> {
    if bo.typo.dom().contains(thuong_cua(chu)) {
        Some(bo.typo[thuong_cua(chu)])
    } else {
        None
    }
}

/// Chỗ ngờ của tầng tiếng sai cho tiếng thứ `i` của `s`, nếu có.
#[verifier::opaque]
pub open spec fn am_tiet_sai_tai(bo: BoSoatV, s: Seq<char>, i: int) -> Option<ChoXetV> {
    let ks = cat_spec(s);
    let t = crate::tach_tu::tu_cua(s, ks[i]);
    let kho = bo.am;
    let ghep = bo.ghep;
    if !can_xet(bo, t.chu) {
        None
    } else {
        let tach = tach_duoc_spec(kho, t.chu);
        if tach_chac_spec(tach, ghep) {
            Some(ChoXetV {
                dau: t.dau,
                cuoi: t.cuoi,
                goc: t.chu,
                ung_vien: tach,
                loai: Loai::DinhChu,
                ly_do: ly_do_tach(t.chu, tach[0]),
                bang_chung: BangChung::TachDinh,
            })
        } else {
            let b = crate::xep_hang::BoiCanh {
                goc: t.chu,
                truoc: if i > 0 { Some(crate::tach_tu::tu_cua(s, ks[i - 1]).chu) } else { None },
                sau: if i + 1 < ks.len() { Some(crate::tach_tu::tu_cua(s, ks[i + 1]).chu) } else { None },
                cum: bo.cum,
                tu_dung: bo.dung,
                typo: typo_cua(bo, t.chu),
                kho,
                ghep,
            };
            let (uv, bc) = crate::xep_hang::xep_hang_spec(
                b,
                crate::ung_vien::sinh_spec(t.chu),
                tach,
                so_dau_den(t.chu, t.chu.len() as int),
            );
            if uv.len() == 0 {
                None
            } else {
                Some(ChoXetV {
                    dau: t.dau,
                    cuoi: t.cuoi,
                    goc: t.chu,
                    ung_vien: uv,
                    loai: nhan_theo_spec(Loai::AmTietSai, uv[0]),
                    ly_do: ly_do_sai(bc, tach.len() > 0, t.chu, uv[0]),
                    bang_chung: bc,
                })
            }
        }
    }
}

/// Chỗ ngờ của tầng tiếng sai cho các tiếng `0..n` của `s`.
pub open spec fn am_tiet_sai_den(bo: BoSoatV, s: Seq<char>, n: int) -> Seq<ChoXetV>
    decreases n,
{
    if n <= 0 {
        seq![]
    } else {
        am_tiet_sai_den(bo, s, n - 1) + match am_tiet_sai_tai(bo, s, n - 1) {
            Some(c) => seq![c],
            None => seq![],
        }
    }
}

/// Chỗ ngờ của tầng tiếng sai trên cả `s`.
pub open spec fn am_tiet_sai_spec(bo: BoSoatV, s: Seq<char>) -> Seq<ChoXetV> {
    am_tiet_sai_den(bo, s, cat_spec(s).len() as int)
}

/// Chỗ ngờ tuỳ chọn ở dạng toán học.
pub open spec fn opt_cx(o: Option<ChoXet>) -> Option<ChoXetV> {
    match o {
        Some(c) => Some(c@),
        None => None,
    }
}

impl BoSoat {
    fn cac_cach_tach(&self, chu: &str) -> (r: Vec<String>)
        requires
            self.hop_le(),
        ensures
            r@.map_values(|x: String| x@) == tach_duoc_spec(self.tu_dien_v().kho_am_tiet(), chu@),
    {
        let tach0 = self.tu_dien.tach_dinh(chu);
        let ghost kho = self.tu_dien.kho_am_tiet();
        let ghost t0 = crate::tu_dien::tach_dinh_spec(kho, chu@);
        let mut tach_duoc: Vec<String> = Vec::new();
        let mut k: usize = 0;
        while k < tach0.len()
            invariant
                k <= tach0@.len(),
                tach0@.map_values(|x: String| x@) == t0,
                tach_duoc@.map_values(|x: String| x@) == t0.take(k as int).map_values(
                    |x: Seq<char>| chen_khoang_trang_spec(chu@, x),
                ),
            decreases tach0.len() - k,
        {
            let ghost tr = tach_duoc@.map_values(|x: String| x@);
            let x = chen_khoang_trang(chu, tach0[k].as_str());
            assert(t0[k as int] == tach0@[k as int]@);
            tach_duoc.push(x);
            assert(tach_duoc@.map_values(|x: String| x@) =~= tr.push(chen_khoang_trang_spec(chu@, t0[k as int])));
            assert(t0.take(k + 1).map_values(|x: Seq<char>| chen_khoang_trang_spec(chu@, x)) =~= t0.take(
                k as int,
            ).map_values(|x: Seq<char>| chen_khoang_trang_spec(chu@, x)).push(chen_khoang_trang_spec(chu@, t0[k as int])));
            k += 1;
        }
        assert(t0.take(t0.len() as int) =~= t0);
        let ghost tv = tach_duoc@.map_values(|x: String| x@);
        assert(tv == tach_duoc_spec(kho, chu@));
        tach_duoc
    }

    fn xet_tieng(&self, tu: &Vec<crate::tach_tu::Tu>, i: usize, Ghost(s): Ghost<Seq<char>>) -> (r: Option<ChoXet>)
        requires
            self.hop_le(),
            i < tu@.len(),
            tu@.len() == cat_spec(s).len(),
            forall|j: int| 0 <= j < tu@.len() ==> #[trigger] tu@[j]@ == crate::tach_tu::tu_cua(s, cat_spec(s)[j]),
        ensures
            opt_cx(r) == am_tiet_sai_tai(self@, s, i as int),
    {
        reveal(am_tiet_sai_tai);
        let t = &tu[i];
        let chu = t.chu;
        assert(t@ == crate::tach_tu::tu_cua(s, cat_spec(s)[i as int]));
        let dang_kiem = match dang_tu(chu) {
            DangTu::TiengViet => true,
            DangTu::KhongDau => self.tuy_chon.chu_khong_dau,
            _ => false,
        };
        if !dang_kiem || self.tu_dien.co_am_tiet(chu) || crate::am_tiet::hop_le(chu) {
            return None;
        }
        let thap = chuoi(chuoi_thuong(ky_tu(chu).as_slice()).as_slice());
        if self.ten_rieng.contains(thap.as_str()) {
            return None;
        }
        assert(can_xet(self@, chu@));
        let truoc = if i > 0 { Some(tu[i - 1].chu) } else { None };
        let sau = if i < tu.len() - 1 { Some(tu[i + 1].chu) } else { None };
        proof {
            if i > 0 {
                assert(tu@[i - 1]@ == crate::tach_tu::tu_cua(s, cat_spec(s)[i - 1]));
            }
            if i + 1 < tu@.len() {
                assert(tu@[i + 1]@ == crate::tach_tu::tu_cua(s, cat_spec(s)[i + 1]));
            }
        }
        let uv_tho = crate::ung_vien::sinh(chu);
        let tach_duoc = self.cac_cach_tach(chu);
        let ghost tv = tach_duoc@.map_values(|x: String| x@);
        let ghost kho = self.tu_dien.kho_am_tiet();
        let chac = if tach_duoc.len() > 0 {
            assert(tv[0] == tach_duoc@[0]@);
            let thap0 = chuoi(chuoi_thuong(ky_tu(tach_duoc[0].as_str()).as_slice()).as_slice());
            crate::tu_dien::tach_manh(thap0.as_str()) && (tach_duoc.len() == 1 || self.tu_dien.co_tu_ghep(
                thap0.as_str(),
            ))
        } else {
            false
        };
        assert(chac == tach_chac_spec(tv, self.tu_dien.kho_tu_ghep()));
        if chac {
            let ly = ly_do_tach_exec(chu, tach_duoc[0].as_str());
            let cx = ChoXet {
                pham_vi: t.dau..t.cuoi,
                goc: chep_chuoi(chu),
                ung_vien: tach_duoc,
                loai: Loai::DinhChu,
                ly_do: ly,
                bang_chung: BangChung::TachDinh,
            };
            return Some(cx);
        }
        let co_tach = tach_duoc.len() > 0;
        let so_dau = dem_dau(chu);
        let typo = self.bang_typo.tra(chu);
        assert(crate::xep_hang::opt_typo(typo) == typo_cua(self@, chu@));
        let (ung_vien, bc) = crate::xep_hang::xep_hang_ung_vien(
            chu,
            uv_tho,
            tach_duoc,
            so_dau,
            truoc,
            sau,
            &self.cum_ten_rieng,
            &self.tu_dung,
            typo,
            &self.tu_dien,
        );
        if ung_vien.len() == 0 {
            return None;
        }
        let ly = ly_do_sai_exec(bc, co_tach, chu, ung_vien[0].as_str());
        let loai = nhan_theo(Loai::AmTietSai, ung_vien[0].as_str());
        Some(ChoXet { pham_vi: t.dau..t.cuoi, goc: chep_chuoi(chu), ung_vien, loai, ly_do: ly, bang_chung: bc })
    }

    /// Tầng tiếng sai: tìm những tiếng vừa **không có trong từ điển** vừa **sai
    /// cấu tạo** (mà không phải tên riêng của sách), rồi đề xuất cách sửa. Chữ
    /// dính tách dứt khoát thì đề xuất cách tách với bằng chứng; còn lại thì xếp
    /// các cách tách cùng các cách sửa chữ chung một bảng — xem
    /// [`crate::xep_hang::xep_hang_ung_vien`].
    pub fn soat_am_tiet(&self, chu: &str) -> (r: Vec<ChoXet>)
        requires
            self.hop_le(),
        ensures
            dscx(r@) == am_tiet_sai_spec(self@, chu@),
    {
        let tu = crate::tach_tu::cat(chu);
        let mut ra: Vec<ChoXet> = Vec::new();
        let mut i: usize = 0;
        assert(dscx(ra@) =~= am_tiet_sai_den(self@, chu@, 0));
        while i < tu.len()
            invariant
                i <= tu@.len(),
                self.hop_le(),
                tu@.len() == cat_spec(chu@).len(),
                forall|j: int| 0 <= j < tu@.len() ==> #[trigger] tu@[j]@ == crate::tach_tu::tu_cua(chu@, cat_spec(chu@)[j]),
                dscx(ra@) == am_tiet_sai_den(self@, chu@, i as int),
            decreases tu.len() - i,
        {
            let ghost truoc = dscx(ra@);
            match self.xet_tieng(&tu, i, Ghost(chu@)) {
                Some(c) => {
                    ra.push(c);
                    assert(dscx(ra@) =~= truoc.push(c@));
                },
                None => {},
            }
            assert(am_tiet_sai_den(self@, chu@, i + 1) =~= dscx(ra@));
            i += 1;
        }
        ra
    }
}


/// Mọi chỗ ngờ trong dãy đều có ít nhất một ứng viên.
pub open spec fn deu_co_ung_vien(ds: Seq<ChoXetV>) -> bool {
    forall|i: int| 0 <= i < ds.len() ==> (#[trigger] ds[i]).ung_vien.len() > 0
}

/// Mọi chỗ ngờ trong dãy đều không có bằng chứng dứt khoát.
pub open spec fn deu_khong_bang_chung(ds: Seq<ChoXetV>) -> bool {
    forall|i: int| 0 <= i < ds.len() ==> (#[trigger] ds[i]).bang_chung == BangChung::Khong
}

proof fn lemma_am_tiet_sai_co_ung_vien(bo: BoSoatV, s: Seq<char>, n: int)
    ensures
        deu_co_ung_vien(am_tiet_sai_den(bo, s, n)),
    decreases n,
{
    reveal(am_tiet_sai_tai);
    if n > 0 {
        lemma_am_tiet_sai_co_ung_vien(bo, s, n - 1);
        let a = am_tiet_sai_den(bo, s, n - 1);
        let r = am_tiet_sai_den(bo, s, n);
        assert forall|i: int| 0 <= i < r.len() implies (#[trigger] r[i]).ung_vien.len() > 0 by {
            if i < a.len() {
                assert(r[i] == a[i]);
            }
        }
    }
}

proof fn lemma_doi_vi_tri_khong(truoc: Seq<char>, sau: Seq<char>, ds: Seq<ChoXetV>)
    requires
        deu_khong_bang_chung(ds),
    ensures
        deu_khong_bang_chung(doi_vi_tri_spec(truoc, sau, ds)),
{
    if truoc != sau {
        let r = doi_vi_tri_spec(truoc, sau, ds);
        assert forall|i: int| 0 <= i < r.len() implies (#[trigger] r[i]).bang_chung == BangChung::Khong by {
            let f = |cx: ChoXetV| doi_mot(sau, cx);
            assert(r.contains(r[i]));
            ds.lemma_filter_map_contains(f, r[i]);
            let t = choose|t: ChoXetV| #[trigger] ds.contains(t) && f(t) == Some(r[i]);
            let k = choose|k: int| 0 <= k < ds.len() && ds[k] == t;
            assert(ds[k].bang_chung == BangChung::Khong);
        }
    }
}

/// Mọi chỗ ngờ có bằng chứng mà các tầng để lại đều có ít nhất một ứng viên.
pub proof fn lemma_soat_co_ung_vien(bo: BoSoatV, van_ban: Seq<char>, kn: Seq<KhacV>)
    ensures
        co_ung_vien(soat_du_spec(bo, van_ban, kn).cho_xet),
{
    let tc = bo.tuy_chon;
    let st = soat_spec(tc, bo.kieu, bo.dn, van_ban, kn);
    let cd = tc.chuan_hoa;
    let st0 = TrangThaiSoat { chu: van_ban, da_sua: seq![], cho_xet: seq![] };
    let st1 = buoc_ghi(st0, if cd.unicode { unicode_den(van_ban, van_ban.len() as int) } else { seq![] });
    let st2 = buoc_nfc(st1, cd.unicode, kn);
    let st3 = buoc_ghi(st2, if cd.dau_cau { dau_cau_spec(st2.chu, cd) } else { seq![] });
    let st4 = buoc_ghi(st3, if cd.khoang_trang { khoang_trang_spec(st3.chu) } else { seq![] });
    let st5 = buoc_ghi(
        st4,
        soat_den(st4.chu, cat_spec(st4.chu).len() as int, bo.kieu == Kieu::Moi, tc.nhat_quan_dau_thanh),
    );
    assert(st5.cho_xet.len() == 0);
    assert(deu_khong_bang_chung(st.cho_xet)) by {
        if tc.de_nham {
            let tat_ca = crate::de_nham::soat_dn(st5.chu, bo.dn.0, bo.dn.1);
            let mo_ho = tat_ca.filter(|x: SuaDoiV| x.do_chac != DoChac::Chac);
            let cx = st5.cho_xet + mo_ho.map_values(|x: SuaDoiV| cho_xet_tu(x));
            assert(deu_khong_bang_chung(cx));
            let chac = tat_ca.filter(|x: SuaDoiV| x.do_chac == DoChac::Chac);
            let (m, g) = ghi_nhan_spec(st5.chu, chac);
            lemma_doi_vi_tri_khong(st5.chu, m, cx);
        }
    }
    let r = soat_du_spec(bo, van_ban, kn).cho_xet;
    if tc.am_tiet_sai {
        let b = am_tiet_sai_spec(bo, st.chu);
        lemma_am_tiet_sai_co_ung_vien(bo, st.chu, cat_spec(st.chu).len() as int);
        assert forall|i: int| 0 <= i < r.len() && (#[trigger] r[i]).bang_chung != BangChung::Khong implies r[i].ung_vien.len() > 0 by {
            if i < st.cho_xet.len() {
                assert(r[i] == st.cho_xet[i]);
            } else {
                assert(r[i] == b[i - st.cho_xet.len()]);
            }
        }
    }
}


/// Khoảng byte `[dau, cuoi)` của `s` là một đoạn trọn ký tự, và đoạn ấy đúng là `goc`.
pub open spec fn khop_doan(s: Seq<char>, dau: nat, cuoi: nat, goc: Seq<char>) -> bool {
    exists|a: int, b: int|
        #![trigger vt_byte(s, a), vt_byte(s, b)]
        0 <= a <= b <= s.len() && vt_byte(s, a) == dau && vt_byte(s, b) == cuoi && s.subrange(a, b) == goc
}

/// Mọi chỗ ngờ trong dãy nằm trọn ký tự trong `s` và khớp chữ gốc của nó.
pub open spec fn deu_khop(s: Seq<char>, ds: Seq<ChoXetV>) -> bool {
    forall|i: int| 0 <= i < ds.len() ==> khop_doan(s, (#[trigger] ds[i]).dau, ds[i].cuoi, ds[i].goc)
}

/// Mọi phép sửa trong dãy nằm trọn ký tự trong `s` và khớp chữ gốc của nó.
pub open spec fn sua_deu_khop(s: Seq<char>, ds: Seq<SuaDoiV>) -> bool {
    forall|i: int| 0 <= i < ds.len() ==> khop_doan(s, (#[trigger] ds[i]).dau, ds[i].cuoi, ds[i].goc)
}

proof fn lemma_vt_byte_noi(s: Seq<char>, a: int, b: int)
    requires
        0 <= a <= b <= s.len(),
    ensures
        vt_byte(s, b) == vt_byte(s, a) + vstd::utf8::encode_utf8(s.subrange(a, b)).len(),
{
    assert(s.take(b) =~= s.take(a) + s.subrange(a, b));
    crate::chuoi::lemma_ma_noi(s.take(a), s.subrange(a, b));
}

proof fn lemma_cat_don_dieu(s: Seq<char>, p: int, q: int)
    requires
        0 <= p <= q < cat_spec(s).len(),
    ensures
        cat_spec(s)[p].0 <= cat_spec(s)[q].0,
        cat_spec(s)[p].1 <= cat_spec(s)[q].1,
    decreases q - p,
{
    crate::tach_tu::lemma_cat_tang(s);
    if p < q {
        lemma_cat_don_dieu(s, p, q - 1);
        assert(cat_spec(s)[q - 1].1 < cat_spec(s)[q].0);
    }
}

proof fn lemma_xet_cho_khop(
    s: Seq<char>,
    khoa: Seq<Seq<char>>,
    dung: Seq<char>,
    chac: DoChac,
    i: int,
    st: (Seq<SuaDoiV>, Seq<bool>),
)
    requires
        sua_deu_khop(s, st.0),
        khoa.len() > 0,
        0 <= i,
        i + khoa.len() <= cat_spec(s).len(),
    ensures
        sua_deu_khop(s, crate::de_nham::xet_cho(s, khoa, dung, chac, i, st).0),
{
    let r = crate::de_nham::xet_cho(s, khoa, dung, chac, i, st).0;
    let n = khoa.len() as int;
    let ks = cat_spec(s);
    crate::tach_tu::lemma_cat_tang(s);
    lemma_cat_don_dieu(s, i, i + n - 1);
    assert forall|q: int| 0 <= q < r.len() implies khop_doan(s, (#[trigger] r[q]).dau, r[q].cuoi, r[q].goc) by {
        if q < st.0.len() {
            assert(r[q] == st.0[q]);
        } else {
            let a = ks[i].0;
            let b = ks[i + n - 1].1;
            assert(0 <= a <= b <= s.len());
            assert(vt_byte(s, a) == r[q].dau && vt_byte(s, b) == r[q].cuoi && s.subrange(a, b) == r[q].goc);
        }
    }
}

proof fn lemma_xet_muc_khop(
    s: Seq<char>,
    khoa: Seq<Seq<char>>,
    dung: Seq<char>,
    chac: DoChac,
    i: int,
    st: (Seq<SuaDoiV>, Seq<bool>),
)
    requires
        sua_deu_khop(s, st.0),
    ensures
        sua_deu_khop(s, crate::de_nham::xet_muc(s, khoa, dung, chac, i, st).0),
    decreases cat_spec(s).len() + 1 - i,
{
    if !(khoa.len() == 0 || i < 0 || i + khoa.len() > cat_spec(s).len()) {
        lemma_xet_cho_khop(s, khoa, dung, chac, i, st);
        lemma_xet_muc_khop(s, khoa, dung, chac, i + 1, crate::de_nham::xet_cho(s, khoa, dung, chac, i, st));
    }
}

proof fn lemma_xet_bang_khop(
    s: Seq<char>,
    bang: Seq<crate::de_nham::MucV>,
    chac: DoChac,
    j: int,
    st: (Seq<SuaDoiV>, Seq<bool>),
)
    requires
        sua_deu_khop(s, st.0),
    ensures
        sua_deu_khop(s, crate::de_nham::xet_bang(s, bang, chac, j, st).0),
    decreases bang.len() - j,
{
    if !(j < 0 || j >= bang.len()) {
        lemma_xet_muc_khop(s, bang[j].0, bang[j].1, chac, 0, st);
        lemma_xet_bang_khop(s, bang, chac, j + 1, crate::de_nham::xet_muc(s, bang[j].0, bang[j].1, chac, 0, st));
    }
}

/// Vị trí byte `v` là chỗ bắt đầu của một lần xuất hiện `g` trong `s`.
pub open spec fn la_cho_xuat_hien(s: Seq<char>, g: Seq<char>, v: int) -> bool {
    exists|j: int| #![trigger vt_byte(s, j)] 0 <= j && j + g.len() <= s.len() && s.subrange(j, j + g.len()) == g && vt_byte(s, j) == v
}

proof fn lemma_gan_nhat(s: Seq<char>, g: Seq<char>, dau: int, k: int, tot: Option<int>)
    requires
        tot matches Some(t) ==> la_cho_xuat_hien(s, g, t),
    ensures
        gan_nhat(s, g, dau, k, tot) matches Some(v) ==> la_cho_xuat_hien(s, g, v),
    decreases s.len() + 1 - k,
{
    if k >= 0 {
        match crate::tach_chuoi::tim_chuoi(s, g, k) {
            None => {},
            Some(j) => {
                crate::tach_chuoi::lemma_tim_chuoi(s, g, k);
                let vt = vt_byte(s, j) as int;
                assert(la_cho_xuat_hien(s, g, vt));
                let tot2 = match tot {
                    None => Some(vt),
                    Some(t) => if (if vt >= dau { vt - dau } else { dau - vt }) < (if t >= dau { t - dau } else { dau - t }) {
                        Some(vt)
                    } else {
                        Some(t)
                    },
                };
                if j + 1 < s.len() {
                    lemma_gan_nhat(s, g, dau, j + 1, tot2);
                }
            },
        }
    }
}

proof fn lemma_doi_vi_tri_khop(truoc: Seq<char>, sau: Seq<char>, ds: Seq<ChoXetV>)
    requires
        deu_khop(truoc, ds),
    ensures
        deu_khop(sau, doi_vi_tri_spec(truoc, sau, ds)),
{
    if truoc != sau {
        let r = doi_vi_tri_spec(truoc, sau, ds);
        assert forall|i: int| 0 <= i < r.len() implies khop_doan(sau, (#[trigger] r[i]).dau, r[i].cuoi, r[i].goc) by {
            let f = |cx: ChoXetV| doi_mot(sau, cx);
            assert(r.contains(r[i]));
            ds.lemma_filter_map_contains(f, r[i]);
            let t = choose|t: ChoXetV| #[trigger] ds.contains(t) && f(t) == Some(r[i]);
            lemma_gan_nhat(sau, t.goc, t.dau as int, 0, None);
            let vt = gan_nhat(sau, t.goc, t.dau as int, 0, None)->0;
            let j = choose|j: int| #![trigger vt_byte(sau, j)] 0 <= j && j + t.goc.len() <= sau.len()
                && sau.subrange(j, j + t.goc.len()) == t.goc && vt_byte(sau, j) == vt;
            lemma_vt_byte_noi(sau, j, j + t.goc.len());
            assert(vt_byte(sau, j + t.goc.len()) == r[i].cuoi);
            assert(khop_doan(sau, r[i].dau, r[i].cuoi, r[i].goc));
        }
    }
}

proof fn lemma_am_tiet_sai_khop(bo: BoSoatV, s: Seq<char>, n: int)
    requires
        n <= cat_spec(s).len(),
    ensures
        deu_khop(s, am_tiet_sai_den(bo, s, n)),
    decreases n,
{
    reveal(am_tiet_sai_tai);
    if n > 0 {
        lemma_am_tiet_sai_khop(bo, s, n - 1);
        crate::tach_tu::lemma_cat_tang(s);
        let a = am_tiet_sai_den(bo, s, n - 1);
        let r = am_tiet_sai_den(bo, s, n);
        let k = cat_spec(s)[n - 1];
        assert forall|i: int| 0 <= i < r.len() implies khop_doan(s, (#[trigger] r[i]).dau, r[i].cuoi, r[i].goc) by {
            if i < a.len() {
                assert(r[i] == a[i]);
            } else {
                assert(0 <= k.0 <= k.1 <= s.len());
                assert(vt_byte(s, k.0) == r[i].dau && vt_byte(s, k.1) == r[i].cuoi);
            }
        }
    }
}

/// Mọi chỗ ngờ mà các tầng để lại đều nằm trọn ký tự trong chữ kết quả và khớp
/// chữ gốc ghi trong nó.
pub proof fn lemma_soat_khop(bo: BoSoatV, van_ban: Seq<char>, kn: Seq<KhacV>)
    ensures
        deu_khop(soat_du_spec(bo, van_ban, kn).chu, soat_du_spec(bo, van_ban, kn).cho_xet),
{
    let tc = bo.tuy_chon;
    let st = soat_spec(tc, bo.kieu, bo.dn, van_ban, kn);
    let cd = tc.chuan_hoa;
    let st0 = TrangThaiSoat { chu: van_ban, da_sua: seq![], cho_xet: seq![] };
    let st1 = buoc_ghi(st0, if cd.unicode { unicode_den(van_ban, van_ban.len() as int) } else { seq![] });
    let st2 = buoc_nfc(st1, cd.unicode, kn);
    let st3 = buoc_ghi(st2, if cd.dau_cau { dau_cau_spec(st2.chu, cd) } else { seq![] });
    let st4 = buoc_ghi(st3, if cd.khoang_trang { khoang_trang_spec(st3.chu) } else { seq![] });
    let st5 = buoc_ghi(
        st4,
        soat_den(st4.chu, cat_spec(st4.chu).len() as int, bo.kieu == Kieu::Moi, tc.nhat_quan_dau_thanh),
    );
    assert(st5.cho_xet.len() == 0);
    assert(deu_khop(st.chu, st.cho_xet)) by {
        if tc.de_nham {
            let s5 = st5.chu;
            let tat_ca = crate::de_nham::soat_dn(s5, bo.dn.0, bo.dn.1);
            assert(sua_deu_khop(s5, tat_ca)) by {
                if cat_spec(s5).len() != 0 {
                    let e = (Seq::<SuaDoiV>::empty(), Seq::new(cat_spec(s5).len(), |_q: int| false));
                    lemma_xet_bang_khop(s5, bo.dn.0, DoChac::Chac, 0, e);
                    lemma_xet_bang_khop(
                        s5,
                        bo.dn.1,
                        DoChac::NgoVuc,
                        0,
                        crate::de_nham::xet_bang(s5, bo.dn.0, DoChac::Chac, 0, e),
                    );
                }
            }
            let mo_ho = tat_ca.filter(|x: SuaDoiV| x.do_chac != DoChac::Chac);
            let cx = st5.cho_xet + mo_ho.map_values(|x: SuaDoiV| cho_xet_tu(x));
            assert(deu_khop(s5, cx)) by {
                assert forall|i: int| 0 <= i < cx.len() implies khop_doan(s5, (#[trigger] cx[i]).dau, cx[i].cuoi, cx[i].goc) by {
                    let x = mo_ho[i];
                    assert(mo_ho.contains(x));
                    tat_ca.lemma_filter_contains_rev(|x: SuaDoiV| x.do_chac != DoChac::Chac, x);
                    let q = choose|q: int| 0 <= q < tat_ca.len() && tat_ca[q] == x;
                    assert(khop_doan(s5, tat_ca[q].dau, tat_ca[q].cuoi, tat_ca[q].goc));
                }
            }
            let chac = tat_ca.filter(|x: SuaDoiV| x.do_chac == DoChac::Chac);
            let (m, g) = ghi_nhan_spec(s5, chac);
            lemma_doi_vi_tri_khop(s5, m, cx);
        }
    }
    if tc.am_tiet_sai {
        let r = soat_du_spec(bo, van_ban, kn).cho_xet;
        let b = am_tiet_sai_spec(bo, st.chu);
        lemma_am_tiet_sai_khop(bo, st.chu, cat_spec(st.chu).len() as int);
        assert forall|i: int| 0 <= i < r.len() implies khop_doan(st.chu, (#[trigger] r[i]).dau, r[i].cuoi, r[i].goc) by {
            if i < st.cho_xet.len() {
                assert(r[i] == st.cho_xet[i]);
            } else {
                assert(r[i] == b[i - st.cho_xet.len()]);
            }
        }
    }
}

impl BoSoat {
    /// Chạy các tầng không cần ngữ cảnh trên một đoạn: Unicode, dựng lại NFC,
    /// dấu câu, khoảng trắng, dấu thanh, cặp dễ nhầm, tiếng sai. Phần chắc chắn
    /// được áp; phần tuỳ nghĩa thành chỗ ngờ.
    pub fn soat(&self, van_ban: &str) -> (kq: KetQua)
        requires
            self.hop_le(),
        ensures
            ket_qua_v(kq) == soat_doan_spec(self@, van_ban@),
            nfc_hop_le(self.tuy_chon_v(), van_ban@, kn_nfc(self.tuy_chon_v(), van_ban@)),
            co_ung_vien(dscx(kq.cho_xet@)),
            deu_khop(kq.chu@, dscx(kq.cho_xet@)),
    {
        let tc = &self.tuy_chon;
        let cd = &tc.chuan_hoa;
        let ghost tcv = self.tuy_chon_v();
        let ghost dn = self.bang_dn();
        let mut kq = KetQua::default();
        let mut chu = chep_chuoi(van_ban);
        let ghost st0 = TrangThaiSoat { chu: van_ban@, da_sua: seq![], cho_xet: seq![] };
        proof {
            assert(dsv(kq.da_sua@) =~= st0.da_sua);
            assert(dscx(kq.cho_xet@) =~= st0.cho_xet);
        }
        let mut s = crate::chuan_hoa::soat_unicode(chu.as_str(), cd);
        chu = ghi_nhan(chu.as_str(), &mut s, &mut kq);
        let ghost st1 = buoc_ghi(
            st0,
            if cd.unicode { unicode_den(van_ban@, van_ban@.len() as int) } else { seq![] },
        );
        assert(dsv(kq.da_sua@) =~= st1.da_sua);
        assert(chu@ == st1.chu && dscx(kq.cho_xet@) == st1.cho_xet);
        assert(chu@ == chu_sau_unicode(tcv, van_ban@));
        let ghost mut kn: Seq<KhacV> = Seq::empty();
        if cd.unicode {
            match crate::chuan_hoa::dung_lai_nfc(chu.as_str()) {
                Some(nfc) => {
                    let g = them_nfc(chu.as_str(), nfc.as_str(), &mut kq);
                    proof {
                        kn = g@;
                    }
                    chu = nfc;
                },
                None => {},
            }
        }
        let ghost st2 = buoc_nfc(st1, cd.unicode, kn);
        assert(nfc_hop_le(tcv, van_ban@, kn));
        assert(kn == kn_nfc(tcv, van_ban@) || !(cd.unicode && nfc_cua(st1.chu) != st1.chu));
        assert(chu@ == st2.chu && dsv(kq.da_sua@) == st2.da_sua && dscx(kq.cho_xet@) == st2.cho_xet);
        let mut s = crate::chuan_hoa::soat_dau_cau(chu.as_str(), cd);
        chu = ghi_nhan(chu.as_str(), &mut s, &mut kq);
        let ghost st3 = buoc_ghi(st2, if cd.dau_cau { dau_cau_spec(st2.chu, *cd) } else { seq![] });
        assert(chu@ == st3.chu && dsv(kq.da_sua@) == st3.da_sua && dscx(kq.cho_xet@) == st3.cho_xet);
        let mut s = crate::chuan_hoa::soat_khoang_trang(chu.as_str(), cd);
        chu = ghi_nhan(chu.as_str(), &mut s, &mut kq);
        let ghost st4 = buoc_ghi(st3, if cd.khoang_trang { khoang_trang_spec(st3.chu) } else { seq![] });
        assert(chu@ == st4.chu && dsv(kq.da_sua@) == st4.da_sua && dscx(kq.cho_xet@) == st4.cho_xet);
        let mut s = crate::dau_thanh::soat(chu.as_str(), self.kieu, tc.nhat_quan_dau_thanh);
        assert(dsv(s@) == s@.map_values(|x: SuaDoi| x@));
        chu = ghi_nhan(chu.as_str(), &mut s, &mut kq);
        let ghost st5 = buoc_ghi(
            st4,
            soat_den(st4.chu, cat_spec(st4.chu).len() as int, self.kieu_v() == Kieu::Moi, tcv.nhat_quan_dau_thanh),
        );
        assert(chu@ == st5.chu && dsv(kq.da_sua@) == st5.da_sua && dscx(kq.cho_xet@) == st5.cho_xet);
        let ghost mut st6 = st5;
        if tc.de_nham {
            let tat_ca = self.bang_de_nham.soat(chu.as_str());
            let (mut chac, mo_ho) = tach_chac(&tat_ca);
            them_cho_xet(&mo_ho, &mut kq.cho_xet);
            let truoc = chep_chuoi(chu.as_str());
            chu = ghi_nhan(chu.as_str(), &mut chac, &mut kq);
            doi_vi_tri(truoc.as_str(), chu.as_str(), &mut kq.cho_xet);
            proof {
                st6 = buoc_de_nham(st5, crate::de_nham::soat_dn(st5.chu, dn.0, dn.1));
            }
            assert(chu@ == st6.chu && dsv(kq.da_sua@) == st6.da_sua && dscx(kq.cho_xet@) == st6.cho_xet);
        }
        assert(st6 == soat_spec(tcv, self.kieu_v(), dn, van_ban@, kn));
        if tc.am_tiet_sai {
            let ghost cx = dscx(kq.cho_xet@);
            let mut them = self.soat_am_tiet(chu.as_str());
            kq.cho_xet.append(&mut them);
            assert(dscx(kq.cho_xet@) =~= cx + am_tiet_sai_spec(self@, chu@));
        }
        kq.chu = chu;
        assert(ket_qua_v(kq) == soat_du_spec(self@, van_ban@, kn));
        proof {
            lemma_soat_co_ung_vien(self@, van_ban@, kn);
            lemma_soat_khop(self@, van_ban@, kn);
        }
        kq
    }
}

/// Phép sửa chọn cho một chỗ ngờ khi không có mô hình: có bằng chứng dứt khoát
/// thì lấy ứng viên đầu bảng; tiếng sai cấu tạo chỉ có một cách sửa thì lấy cách
/// ấy; còn lại thì không chọn.
pub open spec fn chon_khong_mo_hinh(c: ChoXetV) -> Option<SuaDoiV> {
    if c.bang_chung != BangChung::Khong {
        Some(SuaDoiV {
            dau: c.dau,
            cuoi: c.cuoi,
            goc: c.goc,
            thay_bang: c.ung_vien[0],
            loai: c.loai,
            do_chac: DoChac::KhaChac,
            ly_do: c.ly_do,
        })
    } else if c.ung_vien.len() == 1 && c.loai == Loai::AmTietSai {
        Some(SuaDoiV {
            dau: c.dau,
            cuoi: c.cuoi,
            goc: c.goc,
            thay_bang: c.ung_vien[0],
            loai: c.loai,
            do_chac: DoChac::KhaChac,
            ly_do: c.ly_do + " — chỉ có một cách sửa"@,
        })
    } else {
        None
    }
}

/// Các phép sửa được chọn khi không có mô hình, theo thứ tự chỗ ngờ.
pub open spec fn chon_ds(ds: Seq<ChoXetV>) -> Seq<SuaDoiV>
    decreases ds.len(),
{
    if ds.len() == 0 {
        seq![]
    } else {
        let truoc = chon_ds(ds.drop_last());
        match chon_khong_mo_hinh(ds.last()) {
            Some(x) => truoc.push(x),
            None => truoc,
        }
    }
}

/// Mọi chỗ ngờ có bằng chứng đều có ít nhất một ứng viên.
pub open spec fn co_ung_vien(ds: Seq<ChoXetV>) -> bool {
    forall|i: int| 0 <= i < ds.len() && (#[trigger] ds[i]).bang_chung != BangChung::Khong ==> ds[i].ung_vien.len() > 0
}

impl BoSoat {
    /// Khi không có mô hình: chỉ áp những chỗ có bằng chứng dứt khoát hoặc có
    /// **đúng một** ứng viên; phần còn lại để ngỏ.
    pub fn quyet_khong_mo_hinh(&self, kq: &mut KetQua)
        requires
            co_ung_vien(dscx(old(kq).cho_xet@)),
        ensures
            ({
                let chon = chon_ds(dscx(old(kq).cho_xet@));
                let (m, g) = ghi_nhan_spec(old(kq).chu@, chon);
                &&& final(kq).chu@ == m
                &&& dsv(final(kq).da_sua@) == dsv(old(kq).da_sua@) + g
                &&& dscx(final(kq).cho_xet@) == dscx(old(kq).cho_xet@).filter(
                    |c: ChoXetV| chon_khong_mo_hinh(c) is None,
                )
            }),
    {
        let ghost g = dscx(kq.cho_xet@);
        let mut cu: Vec<ChoXet> = Vec::new();
        std::mem::swap(&mut cu, &mut kq.cho_xet);
        let mut nguon = dao(cu);
        let mut chon: Vec<SuaDoi> = Vec::new();
        let mut con_lai: Vec<ChoXet> = Vec::new();
        let ghost mut i: int = 0;
        proof {
            reveal(Seq::filter);
            assert(g.take(0) =~= Seq::<ChoXetV>::empty());
            assert(dsv(chon@) =~= Seq::<SuaDoiV>::empty());
            assert(dscx(con_lai@) =~= Seq::<ChoXetV>::empty());
            assert(dscx(nguon@.reverse()) =~= g);
        }
        while nguon.len() > 0
            invariant
                0 <= i <= g.len(),
                dscx(nguon@.reverse()) == g.skip(i),
                co_ung_vien(g),
                dsv(chon@) == chon_ds(g.take(i)),
                dscx(con_lai@) == g.take(i).filter(|c: ChoXetV| chon_khong_mo_hinh(c) is None),
            decreases nguon.len(),
        {
            let ghost n0 = nguon@;
            let cx = nguon.pop().unwrap();
            proof {
                assert(n0 =~= nguon@.push(cx));
                assert(n0.reverse() =~= seq![cx] + nguon@.reverse());
                assert(dscx(n0.reverse())[0] == cx@);
                assert(dscx(n0.reverse()).len() == n0.len());
                assert(i < g.len());
                assert(g.skip(i)[0] == g[i]);
                assert forall|k: int| 0 <= k < nguon@.len() implies #[trigger] dscx(nguon@.reverse())[k]
                    == g.skip(i + 1)[k] by {
                    assert(nguon@.reverse()[k] == n0.reverse()[k + 1]);
                    assert(dscx(n0.reverse())[k + 1] == g.skip(i)[k + 1]);
                }
                assert(cx@ == g[i]);
                assert(dscx(nguon@.reverse()) =~= g.skip(i + 1));
                reveal(Seq::filter);
                assert(g.take(i + 1).drop_last() =~= g.take(i));
                assert(g.take(i + 1).last() == g[i]);
            }
            let ghost ta = dsv(chon@);
            let ghost tc = dscx(con_lai@);
            if cx.bang_chung != BangChung::Khong {
                let phep = SuaDoi::moi(
                    cx.pham_vi.start..cx.pham_vi.end,
                    cx.goc.as_str(),
                    cx.ung_vien[0].as_str(),
                    cx.loai,
                    DoChac::KhaChac,
                    cx.ly_do.as_str(),
                );
                chon.push(phep);
                assert(dsv(chon@) =~= ta.push(chon_khong_mo_hinh(g[i]).unwrap()));
            } else if cx.ung_vien.len() == 1 && cx.loai == Loai::AmTietSai {
                let them = " — chỉ có một cách sửa";
                let ly = chuoi(noi(ky_tu(cx.ly_do.as_str()).as_slice(), ky_tu(them).as_slice()).as_slice());
                let phep = SuaDoi::moi(
                    cx.pham_vi.start..cx.pham_vi.end,
                    cx.goc.as_str(),
                    cx.ung_vien[0].as_str(),
                    cx.loai,
                    DoChac::KhaChac,
                    ly.as_str(),
                );
                chon.push(phep);
                assert(dsv(chon@) =~= ta.push(chon_khong_mo_hinh(g[i]).unwrap()));
            } else {
                con_lai.push(cx);
                assert(dscx(con_lai@) =~= tc.push(g[i]));
            }
            proof {
                i = i + 1;
            }
        }
        proof {
            assert(g.skip(i).len() == 0);
            assert(g.take(i) =~= g);
        }
        let truoc = chep_chuoi(kq.chu.as_str());
        let moi = ghi_nhan(truoc.as_str(), &mut chon, kq);
        kq.chu = moi;
        kq.cho_xet = con_lai;
    }
}

/// Quyết định của mô hình ngôn ngữ cho một chỗ ngờ không có bằng chứng dứt khoát.
#[derive(Debug)]
pub enum LuaChon {
    /// Để nguyên chữ gốc.
    Giu,
    /// Chọn ứng viên thứ `0` trong bảng; `1` là chênh lệch điểm đã viết ra (như `+0.53`).
    Chon(usize, String),
}

/// Quyết định của mô hình ở dạng toán học.
pub enum LuaChonV {
    Giu,
    Chon(nat, Seq<char>),
}

impl View for LuaChon {
    type V = LuaChonV;

    open spec fn view(&self) -> LuaChonV {
        match self {
            LuaChon::Giu => LuaChonV::Giu,
            LuaChon::Chon(k, d) => LuaChonV::Chon(*k as nat, d@),
        }
    }
}

/// Phép sửa chọn cho một chỗ ngờ khi có mô hình. Bằng chứng dứt khoát thắng điểm
/// số: có bằng chứng thì lấy ứng viên đầu bảng, không cần đến quyết định của mô
/// hình; không có thì theo quyết định ấy.
pub open spec fn chon_theo_mo_hinh(c: ChoXetV, l: LuaChonV) -> Option<SuaDoiV> {
    if c.bang_chung != BangChung::Khong {
        Some(SuaDoiV {
            dau: c.dau,
            cuoi: c.cuoi,
            goc: c.goc,
            thay_bang: c.ung_vien[0],
            loai: c.loai,
            do_chac: DoChac::KhaChac,
            ly_do: c.ly_do,
        })
    } else {
        match l {
            LuaChonV::Giu => None,
            LuaChonV::Chon(k, hon) => Some(SuaDoiV {
                dau: c.dau,
                cuoi: c.cuoi,
                goc: c.goc,
                thay_bang: c.ung_vien[k as int],
                loai: nhan_theo_spec(c.loai, c.ung_vien[k as int]),
                do_chac: DoChac::NgoVuc,
                ly_do: c.ly_do + " — mô hình chấm hơn "@ + hon,
            }),
        }
    }
}

/// Các phép sửa được chọn theo quyết định của mô hình, theo thứ tự chỗ ngờ.
pub open spec fn chon_mo_hinh_ds(ds: Seq<ChoXetV>, ls: Seq<LuaChonV>) -> Seq<SuaDoiV>
    decreases ds.len(),
{
    if ds.len() == 0 {
        seq![]
    } else {
        let n = ds.len() - 1;
        let truoc = chon_mo_hinh_ds(ds.drop_last(), ls);
        match chon_theo_mo_hinh(ds[n], ls[n]) {
            Some(x) => truoc.push(x),
            None => truoc,
        }
    }
}

/// Quyết định `ls` dùng được cho các chỗ ngờ `ds`: mỗi chỗ một quyết định, và
/// ứng viên được chọn có trong bảng.
pub open spec fn lua_chon_hop_le(ds: Seq<ChoXetV>, ls: Seq<LuaChonV>) -> bool {
    &&& ls.len() == ds.len()
    &&& co_ung_vien(ds)
    &&& forall|i: int| 0 <= i < ds.len() ==> match #[trigger] ls[i] {
        LuaChonV::Giu => true,
        LuaChonV::Chon(k, _) => k < ds[i].ung_vien.len(),
    }
}

/// Danh sách quyết định ở dạng toán học.
pub open spec fn dslc(v: Seq<LuaChon>) -> Seq<LuaChonV> {
    v.map_values(|l: LuaChon| l@)
}

impl BoSoat {
    /// Áp các quyết định của mô hình ngôn ngữ lên kết quả soát một đoạn: mọi chỗ
    /// ngờ được xét, những phép sửa chọn được thì áp, và không còn chỗ ngờ nào.
    pub fn ap_quyet_dinh(&self, kq: &mut KetQua, lua_chon: &[LuaChon])
        requires
            lua_chon_hop_le(dscx(old(kq).cho_xet@), dslc(lua_chon@)),
        ensures
            ({
                let chon = chon_mo_hinh_ds(dscx(old(kq).cho_xet@), dslc(lua_chon@));
                let (m, g) = ghi_nhan_spec(old(kq).chu@, chon);
                &&& final(kq).chu@ == m
                &&& dsv(final(kq).da_sua@) == dsv(old(kq).da_sua@) + g
                &&& final(kq).cho_xet@.len() == 0
            }),
    {
        let ghost g = dscx(kq.cho_xet@);
        let ghost ls = dslc(lua_chon@);
        let mut chon: Vec<SuaDoi> = Vec::new();
        let mut i: usize = 0;
        assert(dsv(chon@) =~= Seq::<SuaDoiV>::empty());
        assert(g.take(0) =~= Seq::<ChoXetV>::empty());
        while i < kq.cho_xet.len()
            invariant
                i <= g.len(),
                g == dscx(kq.cho_xet@),
                ls == dslc(lua_chon@),
                lua_chon_hop_le(g, ls),
                dsv(chon@) == chon_mo_hinh_ds(g.take(i as int), ls),
            decreases g.len() - i,
        {
            let cx = &kq.cho_xet[i];
            assert(g[i as int] == cx@);
            assert(g.take(i + 1).drop_last() =~= g.take(i as int));
            assert(g.take(i + 1)[i as int] == g[i as int]);
            let ghost ta = dsv(chon@);
            if cx.bang_chung != BangChung::Khong {
                let phep = SuaDoi::moi(
                    cx.pham_vi.start..cx.pham_vi.end,
                    cx.goc.as_str(),
                    cx.ung_vien[0].as_str(),
                    cx.loai,
                    DoChac::KhaChac,
                    cx.ly_do.as_str(),
                );
                chon.push(phep);
                assert(dsv(chon@) =~= ta.push(chon_theo_mo_hinh(g[i as int], ls[i as int]).unwrap()));
            } else {
                assert(ls[i as int] == lua_chon[i as int]@);
                match &lua_chon[i] {
                    LuaChon::Giu => {},
                    LuaChon::Chon(k, hon) => {
                        let uv = cx.ung_vien[*k].as_str();
                        let loai = nhan_theo(cx.loai, uv);
                        let dau = noi(ky_tu(cx.ly_do.as_str()).as_slice(), ky_tu(" — mô hình chấm hơn ").as_slice());
                        let ly = chuoi(noi(dau.as_slice(), ky_tu(hon.as_str()).as_slice()).as_slice());
                        let phep = SuaDoi::moi(
                            cx.pham_vi.start..cx.pham_vi.end,
                            cx.goc.as_str(),
                            uv,
                            loai,
                            DoChac::NgoVuc,
                            ly.as_str(),
                        );
                        chon.push(phep);
                        assert(dsv(chon@) =~= ta.push(chon_theo_mo_hinh(g[i as int], ls[i as int]).unwrap()));
                    },
                }
            }
            i += 1;
        }
        assert(g.take(g.len() as int) =~= g);
        kq.cho_xet.clear();
        let truoc = chep_chuoi(kq.chu.as_str());
        let moi = ghi_nhan(truoc.as_str(), &mut chon, kq);
        kq.chu = moi;
    }
}


/// Cắt theo dấu cách luôn cho ít nhất một mảnh.
pub proof fn lemma_manh_tu_co_mot(s: Seq<char>, c: char)
    ensures
        manh_tu(s, c, 0).len() >= 1,
{
    crate::tach_chuoi::lemma_tim_ky_tu(s, 0, c);
}

/// Số chiều ghép được của một ứng viên với hai tiếng bên cạnh, tra trong bảng
/// cụm của sách: tiếng đầu của ứng viên ghép về trước, tiếng cuối ghép về sau.
pub open spec fn khop_cum_spec(
    bang: Set<Seq<char>>,
    truoc: Option<Seq<char>>,
    tieng: Seq<char>,
    sau: Option<Seq<char>>,
) -> nat {
    if bang.is_empty() {
        0
    } else {
        let ms = manh_tu(thuong_cua(tieng), ' ', 0);
        let dau = ms[0];
        let cuoi = ms.last();
        (if truoc matches Some(p) && bang.contains(thuong_cua(p) + seq![' '] + dau) { 1nat } else { 0nat })
            + (if sau matches Some(q) && bang.contains(cuoi + seq![' '] + thuong_cua(q)) { 1nat } else { 0nat })
    }
}

/// Song song với [`TuDien::khop_hang_xom`], chỉ khác chỗ tra: bảng cụm đếm từ
/// chính cuốn sách thay cho từ điển phổ thông.
pub fn khop_cum(bang: &BangChu<()>, truoc: Option<&str>, tieng: &str, sau: Option<&str>) -> (n: usize)
    requires
        bang.hop_le(),
    ensures
        n == khop_cum_spec(
            bang@.dom(),
            match truoc { Some(p) => Some(p@), None => None },
            tieng@,
            match sau { Some(q) => Some(q@), None => None },
        ),
{
    if bang.is_empty() {
        return 0;
    }
    proof {
        if bang@.dom().is_empty() {
            assert(bang@.dom() =~= Set::<Seq<char>>::empty());
        }
    }
    let t = chuoi_thuong(ky_tu(tieng).as_slice());
    let ms = crate::tach_chuoi::cat_theo(t.as_slice(), ' ');
    proof {
        lemma_manh_tu_co_mot(thuong_cua(tieng@), ' ');
        assert(ms@[0]@ == manh_tu(thuong_cua(tieng@), ' ', 0)[0]);
        assert(ms@[ms@.len() - 1]@ == manh_tu(thuong_cua(tieng@), ' ', 0).last());
    }
    let ghost mv = manh_tu(thuong_cua(tieng@), ' ', 0);
    let dau = &ms[0];
    let cuoi = &ms[ms.len() - 1];
    let cach = vec![' '];
    assert(cach@ =~= seq![' ']);
    let mut a: usize = 0;
    match truoc {
        Some(p) => {
            let pt = chuoi_thuong(ky_tu(p).as_slice());
            let k1 = noi(pt.as_slice(), cach.as_slice());
            let k = noi(k1.as_slice(), dau.as_slice());
            assert(k@ == thuong_cua(p@) + seq![' '] + mv[0]);
            if bang.co(k.as_slice()) {
                a = 1;
            }
        },
        None => {},
    }
    let mut b: usize = 0;
    match sau {
        Some(q) => {
            let qt = chuoi_thuong(ky_tu(q).as_slice());
            let k1 = noi(cuoi.as_slice(), cach.as_slice());
            let k = noi(k1.as_slice(), qt.as_slice());
            assert(k@ == mv.last() + seq![' '] + thuong_cua(q@));
            if bang.co(k.as_slice()) {
                b = 1;
            }
        },
        None => {},
    }
    assert(!bang@.dom().is_empty());
    a + b
}

/// Tổng độ dài các mảnh.
pub open spec fn tong_dai(ms: Seq<Seq<char>>) -> int
    decreases ms.len(),
{
    if ms.len() == 0 {
        0
    } else {
        tong_dai(ms.drop_last()) + ms.last().len()
    }
}

/// Cắt `goc` theo độ dài các mảnh `ms`, nối lại bằng dấu cách.
pub open spec fn ghep_theo(goc: Seq<char>, ms: Seq<Seq<char>>) -> Seq<char>
    decreases ms.len(),
{
    if ms.len() == 0 {
        seq![]
    } else {
        ghep_theo(goc, ms.drop_last()) + (if ms.len() > 1 { seq![' '] } else { seq![] }) + goc.subrange(
            tong_dai(ms.drop_last()),
            tong_dai(ms),
        )
    }
}

/// Chèn khoảng trắng vào chữ gốc theo một cách chia (viết thường) mà giữ nguyên
/// hình dạng từng ký tự người ta đã gõ; cách chia không khớp độ dài thì trả lại
/// chính cách chia.
pub open spec fn chen_khoang_trang_spec(goc: Seq<char>, cach_chia: Seq<char>) -> Seq<char> {
    let ms = manh_tu(cach_chia, ' ', 0);
    if tong_dai(ms) == goc.len() {
        ghep_theo(goc, ms)
    } else {
        cach_chia
    }
}

proof fn lemma_tong_dai_tang(ms: Seq<Seq<char>>, i: int, j: int)
    requires
        0 <= i <= j <= ms.len(),
    ensures
        tong_dai(ms.take(i)) <= tong_dai(ms.take(j)),
    decreases j - i,
{
    if i < j {
        lemma_tong_dai_tang(ms, i, j - 1);
        assert(ms.take(j).drop_last() =~= ms.take(j - 1));
    }
}

/// Chèn khoảng trắng vào `goc` theo cách chia `cach_chia` — xem [`chen_khoang_trang_spec`].
pub fn chen_khoang_trang(goc: &str, cach_chia: &str) -> (r: String)
    ensures
        r@ == chen_khoang_trang_spec(goc@, cach_chia@),
{
    let g = ky_tu(goc);
    let c = ky_tu(cach_chia);
    let ms = crate::tach_chuoi::cat_theo(c.as_slice(), ' ');
    let ghost mv = ms@.map_values(|d: Vec<char>| d@);
    let mut ra: Vec<char> = Vec::new();
    let mut vt: usize = 0;
    let mut i: usize = 0;
    assert(mv.take(0) =~= Seq::<Seq<char>>::empty());
    while i < ms.len()
        invariant
            i <= ms@.len(),
            mv == ms@.map_values(|d: Vec<char>| d@),
            mv == manh_tu(cach_chia@, ' ', 0),
            g@ == goc@,
            c@ == cach_chia@,
            vt == tong_dai(mv.take(i as int)),
            vt <= g@.len(),
            ra@ == ghep_theo(goc@, mv.take(i as int)),
        decreases ms.len() - i,
    {
        let n = ms[i].len();
        assert(mv.take(i + 1).drop_last() =~= mv.take(i as int));
        assert(mv.take(i + 1).last() == mv[i as int]);
        if n > g.len() - vt {
            proof {
                lemma_tong_dai_tang(mv, i + 1, mv.len() as int);
                assert(mv.take(mv.len() as int) =~= mv);
            }
            return chep_chuoi(cach_chia);
        }
        if i > 0 {
            ra.push(' ');
        }
        let doan = cat_doan(g.as_slice(), vt, vt + n);
        ra = noi(ra.as_slice(), doan.as_slice());
        vt = vt + n;
        i += 1;
    }
    assert(mv.take(mv.len() as int) =~= mv);
    if vt != g.len() {
        return chep_chuoi(cach_chia);
    }
    chuoi(ra.as_slice())
}

} // verus!
