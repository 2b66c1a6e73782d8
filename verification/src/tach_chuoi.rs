//! Cắt và gọt chuỗi: bỏ khoảng trắng hai đầu, cắt theo một ký tự, cắt theo
//! khoảng trắng, tìm một chuỗi con — đủ để đọc các bảng dữ liệu dạng dòng.
use vstd::prelude::*;
use crate::chuoi::cat_doan;
use crate::hoa_thuong::{la_trang, trang};

verus! {

/// Chỉ số đầu tiên từ `i` trở đi không phải khoảng trắng (hoặc cuối chuỗi).
pub open spec fn dau_chu(s: Seq<char>, i: int) -> int
    decreases s.len() - i,
{
    if i < 0 || i >= s.len() || !la_trang(s[i]) {
        i
    } else {
        dau_chu(s, i + 1)
    }
}

/// Chỉ số ngay sau ký tự cuối cùng không phải khoảng trắng trong `s[..j]`.
pub open spec fn cuoi_chu(s: Seq<char>, j: int) -> int
    decreases j,
{
    if j <= 0 || j > s.len() || !la_trang(s[j - 1]) {
        j
    } else {
        cuoi_chu(s, j - 1)
    }
}

/// Chuỗi bỏ khoảng trắng hai đầu (như `str::trim`).
pub open spec fn got(s: Seq<char>) -> Seq<char> {
    let a = dau_chu(s, 0);
    let b = cuoi_chu(s, s.len() as int);
    if a >= b {
        seq![]
    } else {
        s.subrange(a, b)
    }
}

proof fn lemma_dau_chu(s: Seq<char>, i: int)
    requires
        0 <= i <= s.len(),
    ensures
        i <= dau_chu(s, i) <= s.len(),
    decreases s.len() - i,
{
    if i < s.len() && la_trang(s[i]) {
        lemma_dau_chu(s, i + 1);
    }
}

proof fn lemma_cuoi_chu(s: Seq<char>, j: int)
    requires
        0 <= j <= s.len(),
    ensures
        0 <= cuoi_chu(s, j) <= j,
    decreases j,
{
    if j > 0 && la_trang(s[j - 1]) {
        lemma_cuoi_chu(s, j - 1);
    }
}

/// Bỏ khoảng trắng hai đầu.
pub fn got_exec(s: &[char]) -> (r: Vec<char>)
    ensures
        r@ == got(s@),
{
    let n = s.len();
    let mut a: usize = 0;
    while a < n && trang(s[a])
        invariant
            a <= n,
            n == s@.len(),
            dau_chu(s@, 0) == dau_chu(s@, a as int),
        decreases n - a,
    {
        a += 1;
    }
    let mut b: usize = n;
    while b > 0 && trang(s[b - 1])
        invariant
            b <= n,
            n == s@.len(),
            cuoi_chu(s@, n as int) == cuoi_chu(s@, b as int),
        decreases b,
    {
        b -= 1;
    }
    if a >= b {
        Vec::new()
    } else {
        cat_doan(s, a, b)
    }
}

/// Chỉ số đầu tiên từ `i` trở đi mang ký tự `c` (hoặc cuối chuỗi).
pub open spec fn tim_ky_tu(s: Seq<char>, i: int, c: char) -> int
    decreases s.len() - i,
{
    if i < 0 || i >= s.len() || s[i] == c {
        i
    } else {
        tim_ky_tu(s, i + 1, c)
    }
}

/// Vị trí tìm được của ký tự `c` nằm trong chuỗi và mang đúng ký tự ấy (hoặc là cuối chuỗi).
pub proof fn lemma_tim_ky_tu(s: Seq<char>, i: int, c: char)
    requires
        0 <= i <= s.len(),
    ensures
        i <= tim_ky_tu(s, i, c) <= s.len(),
        tim_ky_tu(s, i, c) == s.len() || s[tim_ky_tu(s, i, c)] == c,
    decreases s.len() - i,
{
    if i < s.len() && s[i] != c {
        lemma_tim_ky_tu(s, i + 1, c);
    }
}

/// Các mảnh của `s[i..]` khi cắt ở mọi ký tự `c` (như `str::split` theo một
/// ký tự): luôn có ít nhất một mảnh, mảnh có thể rỗng.
pub open spec fn manh_tu(s: Seq<char>, c: char, i: int) -> Seq<Seq<char>>
    decreases s.len() + 1 - i,
{
    if i < 0 || i > s.len() {
        seq![]
    } else {
        let j = tim_ky_tu(s, i, c);
        proof {
            lemma_tim_ky_tu(s, i, c);
        }
        if j >= s.len() {
            seq![s.subrange(i, s.len() as int)]
        } else {
            seq![s.subrange(i, j)] + manh_tu(s, c, j + 1)
        }
    }
}

/// Cắt `s` ở mọi ký tự `c`.
pub fn cat_theo(s: &[char], c: char) -> (r: Vec<Vec<char>>)
    ensures
        r@.map_values(|d: Vec<char>| d@) == manh_tu(s@, c, 0),
{
    let n = s.len();
    let mut r: Vec<Vec<char>> = Vec::new();
    let mut dau: usize = 0;
    assert(r@.map_values(|d: Vec<char>| d@) =~= Seq::<Seq<char>>::empty());
    loop
        invariant
            dau <= n,
            n == s@.len(),
            r@.map_values(|d: Vec<char>| d@) + manh_tu(s@, c, dau as int) == manh_tu(s@, c, 0),
        decreases n + 1 - dau,
    {
        let mut i = dau;
        proof {
            lemma_tim_ky_tu(s@, dau as int, c);
        }
        while i < n && s[i] != c
            invariant
                dau <= i <= n,
                n == s@.len(),
                tim_ky_tu(s@, dau as int, c) == tim_ky_tu(s@, i as int, c),
            decreases n - i,
        {
            i += 1;
        }
        let ghost truoc = r@.map_values(|d: Vec<char>| d@);
        r.push(cat_doan(s, dau, i));
        assert(r@.map_values(|d: Vec<char>| d@) =~= truoc + seq![s@.subrange(dau as int, i as int)]);
        if i >= n {
            assert(r@.map_values(|d: Vec<char>| d@) =~= manh_tu(s@, c, 0));
            return r;
        }
        assert(r@.map_values(|d: Vec<char>| d@) + manh_tu(s@, c, i + 1) =~= truoc + manh_tu(s@, c, dau as int));
        dau = i + 1;
    }
}

/// Chỉ số đầu tiên từ `i` trở đi là khoảng trắng (hoặc cuối chuỗi).
pub open spec fn het_chu(s: Seq<char>, i: int) -> int
    decreases s.len() - i,
{
    if i < 0 || i >= s.len() || la_trang(s[i]) {
        i
    } else {
        het_chu(s, i + 1)
    }
}

/// Cuối chữ tìm từ `i` nằm trong chuỗi và tiến lên khi đang đứng ở một ký tự không phải khoảng trắng.
pub proof fn lemma_het_chu(s: Seq<char>, i: int)
    requires
        0 <= i <= s.len(),
    ensures
        i <= het_chu(s, i) <= s.len(),
        i < s.len() && !la_trang(s[i]) ==> i < het_chu(s, i),
    decreases s.len() - i,
{
    if i < s.len() && !la_trang(s[i]) {
        lemma_het_chu(s, i + 1);
    }
}

/// Các cụm không chứa khoảng trắng của `s[i..]` (như `str::split_whitespace`).
pub open spec fn cum_chu(s: Seq<char>, i: int) -> Seq<Seq<char>>
    decreases s.len() - i,
{
    if i < 0 || i >= s.len() {
        seq![]
    } else if la_trang(s[i]) {
        cum_chu(s, i + 1)
    } else {
        let j = het_chu(s, i);
        proof {
            lemma_het_chu(s, i);
        }
        seq![s.subrange(i, j)] + cum_chu(s, j)
    }
}

/// Cắt `s` theo khoảng trắng, bỏ mảnh rỗng.
pub fn cat_khoang_trang(s: &[char]) -> (r: Vec<Vec<char>>)
    ensures
        r@.map_values(|d: Vec<char>| d@) == cum_chu(s@, 0),
{
    let n = s.len();
    let mut r: Vec<Vec<char>> = Vec::new();
    let mut i: usize = 0;
    assert(r@.map_values(|d: Vec<char>| d@) =~= Seq::<Seq<char>>::empty());
    while i < n
        invariant
            i <= n,
            n == s@.len(),
            r@.map_values(|d: Vec<char>| d@) + cum_chu(s@, i as int) == cum_chu(s@, 0),
        decreases n - i,
    {
        if trang(s[i]) {
            i += 1;
        } else {
            let dau = i;
            proof {
                lemma_het_chu(s@, dau as int);
            }
            while i < n && !trang(s[i])
                invariant
                    dau <= i <= n,
                    n == s@.len(),
                    het_chu(s@, dau as int) == het_chu(s@, i as int),
                decreases n - i,
            {
                i += 1;
            }
            let ghost truoc = r@.map_values(|d: Vec<char>| d@);
            r.push(cat_doan(s, dau, i));
            assert(r@.map_values(|d: Vec<char>| d@) + cum_chu(s@, i as int) =~= truoc + cum_chu(s@, dau as int));
        }
    }
    r
}

/// Vị trí đầu tiên từ `i` trở đi mà `p` xuất hiện trong `s`.
pub open spec fn tim_chuoi(s: Seq<char>, p: Seq<char>, i: int) -> Option<int>
    decreases s.len() + 1 - i,
{
    if i < 0 || i + p.len() > s.len() {
        None
    } else if s.subrange(i, i + p.len()) == p {
        Some(i)
    } else {
        tim_chuoi(s, p, i + 1)
    }
}

/// Chỗ tìm thấy `p` nằm trong chuỗi, từ `i` trở đi, và đúng là `p`.
pub proof fn lemma_tim_chuoi(s: Seq<char>, p: Seq<char>, i: int)
    requires
        0 <= i,
    ensures
        tim_chuoi(s, p, i) matches Some(k) ==> i <= k && k + p.len() <= s.len() && s.subrange(k, k + p.len()) == p,
    decreases s.len() + 1 - i,
{
    if i + p.len() <= s.len() && s.subrange(i, i + p.len()) != p {
        lemma_tim_chuoi(s, p, i + 1);
    }
}

/// Tìm lần xuất hiện đầu tiên của `p` trong `s`.
pub fn tim_chuoi_exec(s: &[char], p: &[char]) -> (r: Option<usize>)
    ensures
        r matches Some(k) ==> tim_chuoi(s@, p@, 0) == Some(k as int),
        r is None ==> tim_chuoi(s@, p@, 0) is None,
{
    let n = s.len();
    let m = p.len();
    if m > n {
        return None;
    }
    let mut i: usize = 0;
    while i <= n - m
        invariant
            m <= n,
            n == s@.len(),
            m == p@.len(),
            tim_chuoi(s@, p@, 0) == tim_chuoi(s@, p@, i as int),
        decreases n - m + 1 - i,
    {
        let mut k: usize = 0;
        let mut khop = true;
        while k < m
            invariant
                k <= m,
                i + m <= n,
                n == s@.len(),
                m == p@.len(),
                khop == (forall|t: int| 0 <= t < k ==> s@[i + t] == p@[t]),
            decreases m - k,
        {
            if s[i + k] != p[k] {
                khop = false;
            }
            k += 1;
        }
        if khop {
            assert(s@.subrange(i as int, i + m) =~= p@);
            return Some(i);
        } else {
            assert(s@.subrange(i as int, i + m) != p@) by {
                let t = choose|t: int| 0 <= t < m && s@[i + t] != p@[t];
                assert(s@.subrange(i as int, i + m)[t] == s@[i + t]);
            }
        }
        i += 1;
    }
    None
}

} // verus!
