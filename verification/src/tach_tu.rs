//! Cắt văn bản thành từ, kèm vị trí byte.
//!
//! "Từ" ở đây là **một tiếng** — chuỗi chữ cái liền nhau — chứ không phải từ
//! ghép. Phần khó là **biết tiếng nào không đáng kiểm**: tên riêng nước ngoài,
//! thuật ngữ Anh đều trượt phép kiểm cấu tạo âm tiết; [`dang_tu`] tách chúng ra.
use vstd::prelude::*;
use vstd::string::StrSliceExecFns;
use crate::am_tiet::{la_chu_viet, la_chu_viet_spec, la_nguyen_am, la_nguyen_am_spec, toan_chu_viet};
use crate::chuoi::{ascii_chu, bang_vi_tri, ky_tu, la_ascii_chu, vt_byte};
use crate::hoa_thuong::{hoa, la_hoa};

verus! {

/// Một tiếng đã cắt ra, ở dạng toán học.
pub struct TuV {
    pub chu: Seq<char>,
    pub dau: nat,
    pub cuoi: nat,
}

/// Một tiếng đã cắt ra khỏi văn bản.
#[derive(Debug, Clone)]
pub struct Tu<'a> {
    pub chu: &'a str,
    /// Khoảng byte trong văn bản gốc.
    pub dau: usize,
    pub cuoi: usize,
}

impl<'a> View for Tu<'a> {
    type V = TuV;

    open spec fn view(&self) -> TuV {
        TuV { chu: self.chu@, dau: self.dau as nat, cuoi: self.cuoi as nat }
    }
}

/// Loại của một tiếng — quyết định có đem đi kiểm chính tả hay không.
#[derive(Debug, Clone, Copy, PartialEq, Eq, Structural)]
pub enum DangTu {
    /// Chữ thuần tiếng Việt: chỉ gồm chữ cái, và có mang dấu tiếng Việt.
    TiengViet,
    /// Chỉ gồm chữ cái ASCII, không dấu.
    KhongDau,
    /// Có chữ số, gạch nối, ký tự ngoài bảng chữ cái tiếng Việt, hoặc không có
    /// nguyên âm nào.
    KhongPhaiChu,
    /// Viết hoa toàn bộ, hơn một chữ. Thường là viết tắt.
    VietTat,
}

/// Các khoảng chỉ số ký tự của những cụm chữ liền nhau trong `s[..n]`, kèm chỗ
/// bắt đầu của cụm đang mở (nếu có).
pub open spec fn cat_den(s: Seq<char>, n: int) -> (Seq<(int, int)>, Option<int>)
    decreases n,
{
    if n <= 0 {
        (seq![], None)
    } else {
        let (ra, dau) = cat_den(s, n - 1);
        if la_chu_viet_spec(s[n - 1]) {
            (ra, if dau.is_some() { dau } else { Some(n - 1) })
        } else {
            match dau {
                Some(d) => (ra.push((d, n - 1)), None),
                None => (ra, None),
            }
        }
    }
}

/// Các khoảng chỉ số ký tự của mọi cụm chữ tiếng Việt liền nhau, theo thứ tự.
pub open spec fn cat_spec(s: Seq<char>) -> Seq<(int, int)> {
    let (ra, dau) = cat_den(s, s.len() as int);
    match dau {
        Some(d) => ra.push((d, s.len() as int)),
        None => ra,
    }
}

/// Các khoảng dời sang phải `d` ký tự.
pub open spec fn doi_khoang(ks: Seq<(int, int)>, d: int) -> Seq<(int, int)> {
    ks.map_values(|k: (int, int)| (k.0 + d, k.1 + d))
}

proof fn lemma_cat_den_dau(a: Seq<char>, s: Seq<char>, n: int)
    requires
        0 <= n <= a.len() <= s.len(),
        forall|k: int| 0 <= k < a.len() ==> s[k] == a[k],
    ensures
        cat_den(s, n) == cat_den(a, n),
    decreases n,
{
    if n > 0 {
        lemma_cat_den_dau(a, s, n - 1);
        assert(s[n - 1] == a[n - 1]);
    }
}

proof fn lemma_cat_den_sau(a: Seq<char>, b: Seq<char>, m: int)
    requires
        0 <= m <= b.len(),
    ensures
        ({
            let s = a + seq![' '] + b;
            let l = a.len() + 1int;
            cat_den(s, l + m) == (cat_spec(a) + doi_khoang(cat_den(b, m).0, l), match cat_den(b, m).1 {
                Some(d) => Some(d + l),
                None => None,
            })
        }),
    decreases m,
{
    let s = a + seq![' '] + b;
    let l = a.len() + 1int;
    if m == 0 {
        assert forall|k: int| 0 <= k < a.len() implies s[k] == a[k] by {}
        lemma_cat_den_dau(a, s, a.len() as int);
        assert(s[l - 1] == ' ');
        assert(!la_chu_viet_spec(' '));
        assert(doi_khoang(Seq::<(int, int)>::empty(), l) =~= Seq::<(int, int)>::empty());
        assert(cat_spec(a) + Seq::<(int, int)>::empty() =~= cat_spec(a));
    } else {
        lemma_cat_den_sau(a, b, m - 1);
        assert(s[l + m - 1] == b[m - 1]);
        let (rb, db) = cat_den(b, m - 1);
        match db {
            Some(d) => {
                assert(doi_khoang(rb.push((d, m - 1)), l) =~= doi_khoang(rb, l).push((d + l, l + m - 1)));
                assert(cat_spec(a) + doi_khoang(rb, l).push((d + l, l + m - 1)) =~= (cat_spec(a) + doi_khoang(rb, l)).push(
                    (d + l, l + m - 1),
                ));
            },
            None => {},
        }
    }
}

/// Cắt văn bản nối từ hai phần bằng một khoảng trắng: các tiếng của phần đầu, rồi
/// các tiếng của phần sau dời đi đúng độ dài phần đầu cộng một.
pub proof fn lemma_cat_noi(a: Seq<char>, b: Seq<char>)
    ensures
        cat_spec(a + seq![' '] + b) == cat_spec(a) + doi_khoang(cat_spec(b), a.len() + 1int),
{
    let s = a + seq![' '] + b;
    let l = a.len() + 1int;
    lemma_cat_den_sau(a, b, b.len() as int);
    assert(s.len() == l + b.len());
    let (rb, db) = cat_den(b, b.len() as int);
    match db {
        Some(d) => {
            assert(doi_khoang(rb.push((d, b.len() as int)), l) =~= doi_khoang(rb, l).push((d + l, s.len() as int)));
            assert(cat_spec(a) + doi_khoang(rb, l).push((d + l, s.len() as int)) =~= (cat_spec(a) + doi_khoang(rb, l)).push(
                (d + l, s.len() as int),
            ));
        },
        None => {},
    }
}


/// Tiếng ứng với một khoảng chỉ số ký tự: chữ và khoảng byte.
pub open spec fn tu_cua(s: Seq<char>, k: (int, int)) -> TuV {
    TuV { chu: s.subrange(k.0, k.1), dau: vt_byte(s, k.0), cuoi: vt_byte(s, k.1) }
}

/// Cắt văn bản thành các tiếng: mọi cụm chữ tiếng Việt liền nhau, kèm khoảng
/// byte của nó. Gạch nối **là ranh giới**: `ki-lô-mét` cắt thành ba tiếng.
pub fn cat<'a>(van_ban: &'a str) -> (r: Vec<Tu<'a>>)
    ensures
        r@.len() == cat_spec(van_ban@).len(),
        forall|i: int| 0 <= i < r@.len() ==> #[trigger] r@[i]@ == tu_cua(van_ban@, cat_spec(van_ban@)[i]),
{
    let s = ky_tu(van_ban);
    let b = bang_vi_tri(van_ban);
    let mut ra: Vec<Tu<'a>> = Vec::new();
    let mut dau: Option<usize> = None;
    let mut i: usize = 0;
    while i < s.len()
        invariant
            s@ == van_ban@,
            b@.len() == s@.len() + 1,
            forall|k: int| 0 <= k <= s@.len() ==> #[trigger] b@[k] == vt_byte(s@, k),
            i <= s.len(),
            cat_den(s@, i as int).0.len() == ra@.len(),
            forall|q: int| 0 <= q < ra@.len() ==> #[trigger] ra@[q]@ == tu_cua(s@, cat_den(s@, i as int).0[q]),
            match dau {
                Some(d) => cat_den(s@, i as int).1 == Some(d as int) && d < i,
                None => cat_den(s@, i as int).1 is None,
            },
        decreases s.len() - i,
    {
        if la_chu_viet(s[i]) {
            if dau.is_none() {
                dau = Some(i);
            }
        } else {
            match dau {
                Some(d) => {
                    let t = Tu { chu: van_ban.substring_char(d, i), dau: b[d], cuoi: b[i] };
                    ra.push(t);
                    dau = None;
                },
                None => {},
            }
        }
        i += 1;
    }
    match dau {
        Some(d) => {
            let t = Tu { chu: van_ban.substring_char(d, s.len()), dau: b[d], cuoi: b[s.len()] };
            ra.push(t);
        },
        None => {},
    }
    ra
}

/// Các khoảng chỉ số ký tự của mọi tiếng trong dãy ký tự `s` (xem [`cat`]).
pub fn cat_chi_so(s: &[char]) -> (r: Vec<(usize, usize)>)
    ensures
        r@.len() == cat_spec(s@).len(),
        forall|q: int| 0 <= q < r@.len() ==> (#[trigger] r@[q]).0 == cat_spec(s@)[q].0 && r@[q].1 == cat_spec(
            s@,
        )[q].1,
        forall|q: int| 0 <= q < r@.len() ==> 0 <= (#[trigger] r@[q]).0 < r@[q].1 <= s@.len(),
{
    let mut ra: Vec<(usize, usize)> = Vec::new();
    let mut dau: Option<usize> = None;
    let mut i: usize = 0;
    while i < s.len()
        invariant
            i <= s.len(),
            cat_den(s@, i as int).0.len() == ra@.len(),
            forall|q: int| 0 <= q < ra@.len() ==> (#[trigger] ra@[q]).0 == cat_den(s@, i as int).0[q].0 && ra@[q].1
                == cat_den(s@, i as int).0[q].1,
            forall|q: int| 0 <= q < ra@.len() ==> 0 <= (#[trigger] ra@[q]).0 < ra@[q].1 <= i,
            match dau {
                Some(d) => cat_den(s@, i as int).1 == Some(d as int) && d < i,
                None => cat_den(s@, i as int).1 is None,
            },
        decreases s.len() - i,
    {
        if la_chu_viet(s[i]) {
            if dau.is_none() {
                dau = Some(i);
            }
        } else {
            match dau {
                Some(d) => {
                    ra.push((d, i));
                    dau = None;
                },
                None => {},
            }
        }
        i += 1;
    }
    match dau {
        Some(d) => {
            ra.push((d, s.len()));
        },
        None => {},
    }
    ra
}

/// Loại của một tiếng.
pub open spec fn dang_tu_spec(s: Seq<char>) -> DangTu {
    if s.len() == 0 || !toan_chu_viet(s) {
        DangTu::KhongPhaiChu
    } else if s.len() > 1 && (forall|i: int| 0 <= i < s.len() ==> la_hoa(#[trigger] s[i])) {
        DangTu::VietTat
    } else if !(exists|i: int| 0 <= i < s.len() && la_nguyen_am_spec(#[trigger] s[i])) {
        DangTu::KhongPhaiChu
    } else if exists|i: int| 0 <= i < s.len() && !la_ascii_chu(#[trigger] s[i]) {
        DangTu::TiengViet
    } else {
        DangTu::KhongDau
    }
}

/// Tiếng này thuộc dạng nào.
///
/// Không có nguyên âm thì không phải tiếng (`đ`, `ngh`). Có dấu tiếng Việt —
/// dấu thanh hoặc dấu phụ — thì chắc chắn là chữ Việt.
pub fn dang_tu(chu: &str) -> (r: DangTu)
    ensures
        r == dang_tu_spec(chu@),
{
    let s = ky_tu(chu);
    if s.len() == 0 {
        return DangTu::KhongPhaiChu;
    }
    let mut i: usize = 0;
    let mut hoa_het = true;
    let mut co_nguyen_am = false;
    let mut co_dau = false;
    while i < s.len()
        invariant
            s@ == chu@,
            i <= s.len(),
            forall|k: int| 0 <= k < i ==> la_chu_viet_spec(#[trigger] s@[k]),
            hoa_het == (forall|k: int| 0 <= k < i ==> la_hoa(#[trigger] s@[k])),
            co_nguyen_am == (exists|k: int| 0 <= k < i && la_nguyen_am_spec(#[trigger] s@[k])),
            co_dau == (exists|k: int| 0 <= k < i && !la_ascii_chu(#[trigger] s@[k])),
        decreases s.len() - i,
    {
        let c = s[i];
        if !la_chu_viet(c) {
            return DangTu::KhongPhaiChu;
        }
        if !hoa(c) {
            hoa_het = false;
        }
        if la_nguyen_am(c) {
            co_nguyen_am = true;
        }
        if !ascii_chu(c) {
            co_dau = true;
        }
        i += 1;
    }
    if s.len() > 1 && hoa_het {
        DangTu::VietTat
    } else if !co_nguyen_am {
        DangTu::KhongPhaiChu
    } else if co_dau {
        DangTu::TiengViet
    } else {
        DangTu::KhongDau
    }
}


/// Số tiếng cắt được không vượt số ký tự.
pub proof fn lemma_so_tu_chan(s: Seq<char>)
    ensures
        cat_spec(s).len() <= s.len(),
{
    lemma_cat_den_dem(s, s.len() as int);
}

proof fn lemma_cat_den_dem(s: Seq<char>, n: int)
    requires
        0 <= n <= s.len(),
    ensures
        cat_den(s, n).0.len() + (if cat_den(s, n).1.is_some() { 1int } else { 0int }) <= n,
    decreases n,
{
    if n > 0 {
        lemma_cat_den_dem(s, n - 1);
    }
}


/// Các tiếng nằm theo thứ tự, không chồng nhau, và giữa hai tiếng liền nhau
/// luôn có ít nhất một ký tự không phải chữ.
pub proof fn lemma_cat_tang(s: Seq<char>)
    ensures
        forall|q: int| 0 <= q < cat_spec(s).len() ==> 0 <= (#[trigger] cat_spec(s)[q]).0 < cat_spec(s)[q].1 <= s.len(),
        forall|q: int| 0 <= q < cat_spec(s).len() - 1 ==> (#[trigger] cat_spec(s)[q]).1 < cat_spec(s)[q + 1].0,
{
    lemma_cat_den_tang(s, s.len() as int);
    let (ra, dau) = cat_den(s, s.len() as int);
    match dau {
        Some(d) => {
            assert forall|q: int| 0 <= q < cat_spec(s).len() - 1 implies (#[trigger] cat_spec(s)[q]).1 < cat_spec(
                s,
            )[q + 1].0 by {
                if q + 1 == ra.len() {
                    assert(ra[q] == ra.last());
                }
            }
        },
        None => {},
    }
}

proof fn lemma_cat_den_tang(s: Seq<char>, n: int)
    requires
        0 <= n <= s.len(),
    ensures
        forall|q: int| 0 <= q < cat_den(s, n).0.len() ==> 0 <= (#[trigger] cat_den(s, n).0[q]).0 < cat_den(s, n).0[q].1
            < n,
        forall|q: int| 0 <= q < cat_den(s, n).0.len() - 1 ==> (#[trigger] cat_den(s, n).0[q]).1 < cat_den(s, n).0[q
            + 1].0,
        cat_den(s, n).1 matches Some(d) ==> 0 <= d < n && (cat_den(s, n).0.len() > 0 ==> cat_den(s, n).0.last().1
            < d),
    decreases n,
{
    if n > 0 {
        lemma_cat_den_tang(s, n - 1);
        let (ra, dau) = cat_den(s, n - 1);
        if !la_chu_viet_spec(s[n - 1]) {
            if let Some(d) = dau {
                let ra2 = ra.push((d, n - 1));
                assert forall|q: int| 0 <= q < ra2.len() - 1 implies (#[trigger] ra2[q]).1 < ra2[q + 1].0 by {
                    if q + 1 == ra.len() {
                        assert(ra[q] == ra.last());
                    }
                }
            }
        }
    }
}

} // verus!
