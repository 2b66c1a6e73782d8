//! Thực thể XML (`&amp;`, `&#x2014;`) — giải mã để soi chữ, mã hoá lại để ghi.
//!
//! Phép kiểm chính tả cần thấy **chữ** chứ không thấy `&#273;`, mà `&nbsp;` giải
//! ra U+00A0 lại đúng là thứ tầng chuẩn hoá phải dọn. Chiều ngược lại thì mã hoá
//! **ít nhất có thể**: chỉ `&`, `<`, `>`.
use vstd::prelude::*;
use vstd::utf8::is_scalar;
use crate::chuoi::{bang_vi_tri, chuoi, co_ky_tu, do_dai_byte, ky_tu, lemma_do_dai_byte, so_byte_ky_tu, vt_byte};

verus! {

/// Chữ số của `c` trong cơ số 10 hoặc 16.
pub open spec fn gia_tri_chu_so(c: char, co_so: nat) -> Option<nat> {
    if '0' <= c && c <= '9' {
        Some((c as nat - '0' as nat) as nat)
    } else if co_so == 16 && 'a' <= c && c <= 'f' {
        Some((c as nat - 'a' as nat + 10) as nat)
    } else if co_so == 16 && 'A' <= c && c <= 'F' {
        Some((c as nat - 'A' as nat + 10) as nat)
    } else {
        None
    }
}

/// Giá trị của dãy chữ số `d[..n]`, hoặc `None` nếu có ký tự không phải chữ số.
pub open spec fn gia_tri_day(d: Seq<char>, co_so: nat, n: int) -> Option<nat>
    decreases n,
{
    if n <= 0 {
        Some(0)
    } else {
        match (gia_tri_day(d, co_so, n - 1), gia_tri_chu_so(d[n - 1], co_so)) {
            (Some(v), Some(c)) => Some(v * co_so + c),
            _ => None,
        }
    }
}

/// Đọc một số không dấu theo cách `u32::from_str_radix` đọc: một dấu `+` tuỳ
/// chọn rồi ít nhất một chữ số; vượt `u32` là lỗi.
pub open spec fn doc_so_spec(s: Seq<char>, co_so: nat) -> Option<u32> {
    let d = if s.len() > 0 && s[0] == '+' { s.skip(1) } else { s };
    if d.len() == 0 {
        None
    } else {
        match gia_tri_day(d, co_so, d.len() as int) {
            Some(v) => if v <= u32::MAX { Some(v as u32) } else { None },
            None => None,
        }
    }
}

/// Tên thực thể → ký tự: năm thực thể XML, `&nbsp;`, và thực thể số thập phân
/// hoặc thập lục phân ứng với một giá trị Unicode hợp lệ.
pub open spec fn doi_ten_spec(t: Seq<char>) -> Option<char> {
    if t == seq!['a', 'm', 'p'] {
        Some('&')
    } else if t == seq!['l', 't'] {
        Some('<')
    } else if t == seq!['g', 't'] {
        Some('>')
    } else if t == seq!['q', 'u', 'o', 't'] {
        Some('"')
    } else if t == seq!['a', 'p', 'o', 's'] {
        Some('\'')
    } else if t == seq!['n', 'b', 's', 'p'] {
        Some('\u{00A0}')
    } else if t.len() > 0 && t[0] == '#' {
        let so = t.skip(1);
        let ma = if so.len() > 0 && (so[0] == 'x' || so[0] == 'X') {
            doc_so_spec(so.skip(1), 16)
        } else {
            doc_so_spec(so, 10)
        };
        match ma {
            Some(v) => if is_scalar(v) { Some(v as char) } else { None },
            None => None,
        }
    } else {
        None
    }
}

/// Gọi `char::from_u32`: có ký tự khi và chỉ khi giá trị là một giá trị Unicode
/// hợp lệ.
#[verifier::external_body]
fn tu_ma(v: u32) -> (r: Option<char>)
    ensures
        r == (if is_scalar(v) { Some(v as char) } else { None::<char> }),
{
    char::from_u32(v)
}

fn chu_so(c: char, co_so: u32) -> (r: Option<u32>)
    requires
        co_so == 10 || co_so == 16,
    ensures
        match r {
            Some(v) => gia_tri_chu_so(c, co_so as nat) == Some(v as nat) && v < co_so,
            None => gia_tri_chu_so(c, co_so as nat) is None,
        },
{
    if '0' <= c && c <= '9' {
        Some(c as u32 - '0' as u32)
    } else if co_so == 16 && 'a' <= c && c <= 'f' {
        Some(c as u32 - 'a' as u32 + 10)
    } else if co_so == 16 && 'A' <= c && c <= 'F' {
        Some(c as u32 - 'A' as u32 + 10)
    } else {
        None
    }
}

proof fn lemma_gia_tri_tang(d: Seq<char>, co_so: nat, i: int, n: int)
    requires
        0 <= i <= n,
        co_so >= 1,
        gia_tri_day(d, co_so, n) is Some,
    ensures
        gia_tri_day(d, co_so, i) is Some,
        gia_tri_day(d, co_so, i).unwrap() <= gia_tri_day(d, co_so, n).unwrap(),
    decreases n - i,
{
    if i < n {
        lemma_gia_tri_tang(d, co_so, i, n - 1);
        let v = gia_tri_day(d, co_so, n - 1).unwrap();
        let c = gia_tri_chu_so(d[n - 1], co_so).unwrap();
        assert(v <= v * co_so + c) by (nonlinear_arith)
            requires
                co_so >= 1,
        ;
    }
}

fn doc_so(s: &[char], co_so: u32) -> (r: Option<u32>)
    requires
        co_so == 10 || co_so == 16,
    ensures
        r == doc_so_spec(s@, co_so as nat),
{
    let dau: usize = if s.len() > 0 && s[0] == '+' { 1 } else { 0 };
    let ghost d = if s@.len() > 0 && s@[0] == '+' { s@.skip(1) } else { s@ };
    assert(d =~= s@.skip(dau as int));
    if s.len() == dau {
        return None;
    }
    let mut v: u64 = 0;
    let mut i: usize = dau;
    while i < s.len()
        invariant
            dau <= i <= s.len(),
            co_so == 10 || co_so == 16,
            d == s@.skip(dau as int),
            d == (if s@.len() > 0 && s@[0] == '+' { s@.skip(1) } else { s@ }),
            s@.len() > dau,
            gia_tri_day(d, co_so as nat, (i - dau) as int) == Some(v as nat),
            v <= u32::MAX,
        decreases s.len() - i,
    {
        assert(d[(i - dau) as int] == s@[i as int]);
        assert(d.len() == s@.len() - dau);
        let c = match chu_so(s[i], co_so) {
            Some(c) => c,
            None => {
                proof {
                    lemma_khong_so(d, co_so as nat, (i - dau) as int, d.len() as int);
                    assert(gia_tri_day(d, co_so as nat, d.len() as int) is None);
                    lemma_doc_so_d(s@, co_so as nat);
                }
                return None;
            },
        };
        assert(d[(i - dau) as int] == s@[i as int]);
        assert(v * (co_so as u64) <= 0xFFFF_FFFF * 16) by (nonlinear_arith)
            requires
                v <= 0xFFFF_FFFF,
                co_so <= 16,
        ;
        let moi = v * (co_so as u64) + (c as u64);
        assert(gia_tri_day(d, co_so as nat, (i - dau + 1) as int) == Some(moi as nat));
        if moi > 0xFFFF_FFFF {
            proof {
                if gia_tri_day(d, co_so as nat, d.len() as int) is Some {
                    lemma_gia_tri_tang(d, co_so as nat, (i - dau + 1) as int, d.len() as int);
                }
                lemma_doc_so_d(s@, co_so as nat);
            }
            return None;
        }
        v = moi;
        i += 1;
    }
    Some(v as u32)
}

proof fn lemma_doc_so_d(s: Seq<char>, co_so: nat)
    ensures
        ({
            let d = if s.len() > 0 && s[0] == '+' { s.skip(1) } else { s };
            &&& d.len() > 0 && gia_tri_day(d, co_so, d.len() as int) is None ==> doc_so_spec(s, co_so) is None
            &&& (d.len() > 0 && gia_tri_day(d, co_so, d.len() as int) is Some && gia_tri_day(d, co_so, d.len() as int).unwrap() > u32::MAX) ==> doc_so_spec(s, co_so) is None
        }),
{
}

proof fn lemma_khong_so(d: Seq<char>, co_so: nat, i: int, n: int)
    requires
        0 <= i < n,
        gia_tri_chu_so(d[i], co_so) is None,
    ensures
        gia_tri_day(d, co_so, n) is None,
    decreases n - i,
{
    if i < n - 1 {
        lemma_khong_so(d, co_so, i, n - 1);
    }
}

fn bang_ten(t: &[char], a: char, b: char, c: char, d: char, n: usize) -> (r: bool)
    requires
        2 <= n <= 4,
    ensures
        r == (t@ == (if n == 2 { seq![a, b] } else if n == 3 { seq![a, b, c] } else { seq![a, b, c, d] })),
{
    let r = t.len() == n && t[0] == a && t[1] == b && (n < 3 || t[2] == c) && (n < 4 || t[3] == d);
    proof {
        if r {
            if n == 2 {
                assert(t@ =~= seq![a, b]);
            } else if n == 3 {
                assert(t@ =~= seq![a, b, c]);
            } else {
                assert(t@ =~= seq![a, b, c, d]);
            }
        }
    }
    r
}

fn doi_ten(t: &[char]) -> (r: Option<char>)
    ensures
        r == doi_ten_spec(t@),
{
    if bang_ten(t, 'a', 'm', 'p', ' ', 3) {
        Some('&')
    } else if bang_ten(t, 'l', 't', ' ', ' ', 2) {
        Some('<')
    } else if bang_ten(t, 'g', 't', ' ', ' ', 2) {
        Some('>')
    } else if bang_ten(t, 'q', 'u', 'o', 't', 4) {
        Some('"')
    } else if bang_ten(t, 'a', 'p', 'o', 's', 4) {
        Some('\'')
    } else if bang_ten(t, 'n', 'b', 's', 'p', 4) {
        Some('\u{00A0}')
    } else if t.len() > 0 && t[0] == '#' {
        let so = crate::chuoi::cat_doan(t, 1, t.len());
        assert(so@ == t@.skip(1));
        let ma = if so.len() > 0 && (so[0] == 'x' || so[0] == 'X') {
            let hex = crate::chuoi::cat_doan(&so, 1, so.len());
            assert(hex@ == so@.skip(1));
            doc_so(&hex, 16)
        } else {
            doc_so(&so, 10)
        };
        match ma {
            Some(v) => tu_ma(v),
            None => None,
        }
    } else {
        None
    }
}

/// Vị trí dấu `;` đầu tiên từ chỉ số `k` trở đi.
pub open spec fn tim_cham_phay(s: Seq<char>, k: int) -> Option<int>
    decreases s.len() - k,
{
    if k < 0 || k >= s.len() {
        None
    } else if s[k] == ';' {
        Some(k)
    } else {
        tim_cham_phay(s, k + 1)
    }
}

/// Dấu `;` tìm được từ `k` là dấu `;` đầu tiên từ đó.
pub proof fn lemma_tim_cham_phay(s: Seq<char>, k: int)
    ensures
        tim_cham_phay(s, k) matches Some(h) ==> k <= h < s.len() && s[h] == ';' && forall|q: int|
            k <= q < h ==> s[q] != ';',
    decreases s.len() - k,
{
    if 0 <= k < s.len() && s[k] != ';' {
        lemma_tim_cham_phay(s, k + 1);
    }
}

/// Thực thể bắt đầu ở `k` (một dấu `&`) giải được thành ký tự nào, và kết thúc
/// ở đâu: dấu `;` đầu tiên phía sau, cách dấu `&` không quá 10 byte, với tên
/// đứng giữa là một tên nhận được.
pub open spec fn thuc_the_tai(s: Seq<char>, k: int) -> Option<(char, int)> {
    match tim_cham_phay(s, k) {
        Some(h) => if vt_byte(s, h) - vt_byte(s, k) <= 10 {
            match doi_ten_spec(s.subrange(k + 1, h)) {
                Some(c) => Some((c, h)),
                None => None,
            }
        } else {
            None
        },
        None => None,
    }
}

/// Giải mã từ chỉ số `k`: chữ đã giải và bản đồ byte-đã-giải → byte-gốc.
pub open spec fn giai_tu(s: Seq<char>, k: int) -> (Seq<char>, Seq<u32>)
    decreases s.len() - k,
{
    if k < 0 || k >= s.len() {
        (seq![], seq![])
    } else if s[k] != '&' {
        let (o, m) = giai_tu(s, k + 1);
        (seq![s[k]] + o, Seq::new(do_dai_byte(s[k]), |t: int| (vt_byte(s, k) + t) as u32) + m)
    } else {
        match thuc_the_tai(s, k) {
            Some((c, h)) => {
                proof {
                    lemma_tim_cham_phay(s, k);
                }
                let (o, m) = giai_tu(s, h + 1);
                (seq![c] + o, Seq::new(do_dai_byte(c), |t: int| vt_byte(s, k) as u32) + m)
            },
            None => {
                let (o, m) = giai_tu(s, k + 1);
                (seq!['&'] + o, seq![vt_byte(s, k) as u32] + m)
            },
        }
    }
}


/// Bản đồ vị trí của [`giai_tu`] từ chỉ số `k`: mỗi byte của chữ đã giải có đúng
/// một phần tử, các phần tử không giảm, và đều nằm trong `[vt_byte(s, k), số byte
/// của s)`.
pub open spec fn ban_do_dung(s: Seq<char>, k: int, o: Seq<char>, m: Seq<u32>) -> bool {
    &&& m.len() == vstd::utf8::encode_utf8(o).len()
    &&& forall|i: int, j: int| 0 <= i <= j < m.len() ==> m[i] <= m[j]
    &&& forall|i: int| #![trigger m[i]] 0 <= i < m.len() ==> vt_byte(s, k) <= m[i] && m[i] < vstd::utf8::encode_utf8(s).len()
}

proof fn lemma_ma_dau(c: char, o: Seq<char>)
    ensures
        vstd::utf8::encode_utf8(seq![c] + o).len() == do_dai_byte(c) + vstd::utf8::encode_utf8(o).len(),
{
    crate::chuoi::lemma_ma_noi(seq![c], o);
    crate::chuoi::lemma_ma_mot(c);
}

proof fn lemma_ghep_ban_do(a: Seq<u32>, b: Seq<u32>, lo: int, mid: int, hi: int)
    requires
        lo <= mid <= hi,
        forall|i: int, j: int| 0 <= i <= j < a.len() ==> a[i] <= a[j],
        forall|i: int, j: int| 0 <= i <= j < b.len() ==> b[i] <= b[j],
        forall|i: int| #![trigger a[i]] 0 <= i < a.len() ==> lo <= a[i] && a[i] < mid,
        forall|i: int| #![trigger b[i]] 0 <= i < b.len() ==> mid <= b[i] && b[i] < hi,
    ensures
        forall|i: int, j: int| 0 <= i <= j < (a + b).len() ==> (a + b)[i] <= (a + b)[j],
        forall|i: int| #![trigger (a + b)[i]] 0 <= i < (a + b).len() ==> lo <= (a + b)[i] && (a + b)[i] < hi,
{
    assert forall|i: int, j: int| 0 <= i <= j < (a + b).len() implies (a + b)[i] <= (a + b)[j] by {
        if j < a.len() {
        } else if i < a.len() {
            assert(a[i] < mid);
            assert(mid <= b[j - a.len()]);
        } else {
        }
    }
    assert forall|i: int| #![trigger (a + b)[i]] 0 <= i < (a + b).len() implies lo <= (a + b)[i] && (a + b)[i] < hi by {
        if i < a.len() {
            assert((a + b)[i] == a[i]);
            assert(lo <= a[i] && a[i] < mid);
        } else {
            assert((a + b)[i] == b[i - a.len()]);
            assert(mid <= b[i - a.len()] && b[i - a.len()] < hi);
        }
    }
}

/// Bản đồ vị trí của phép giải mã: một phần tử cho mỗi byte của chữ đã giải,
/// không giảm, và trỏ vào trong chuỗi gốc — khi độ dài byte của chuỗi gốc vừa
/// một số 32 bit.
pub proof fn lemma_ban_do(s: Seq<char>, k: int)
    requires
        0 <= k,
        vstd::utf8::encode_utf8(s).len() <= u32::MAX,
    ensures
        ban_do_dung(s, k, giai_tu(s, k).0, giai_tu(s, k).1),
    decreases s.len() - k,
{
    let (o, m) = giai_tu(s, k);
    let tong = vstd::utf8::encode_utf8(s).len() as int;
    if k >= s.len() {
        assert(o =~= Seq::<char>::empty());
        assert(vstd::utf8::encode_utf8(o) =~= Seq::<u8>::empty());
    } else {
        crate::chuoi::lemma_vt_byte_tang(s, k, k + 1);
        crate::chuoi::lemma_vt_byte_buoc(s, k);
        crate::chuoi::lemma_vt_byte_tang(s, k + 1, s.len() as int);
        let vk = vt_byte(s, k) as int;
        if s[k] != '&' {
            lemma_ban_do(s, k + 1);
            let (o1, m1) = giai_tu(s, k + 1);
            let dau = Seq::new(do_dai_byte(s[k]), |t: int| (vt_byte(s, k) + t) as u32);
            lemma_ma_dau(s[k], o1);
            assert forall|i: int| #![trigger dau[i]] 0 <= i < dau.len() implies vk <= dau[i] && dau[i] < vt_byte(s, k + 1) by {
            }
            lemma_ghep_ban_do(dau, m1, vk, vt_byte(s, k + 1) as int, tong);
        } else {
            match thuc_the_tai(s, k) {
                Some((c, h)) => {
                    lemma_tim_cham_phay(s, k);
                    lemma_ban_do(s, h + 1);
                    let (o1, m1) = giai_tu(s, h + 1);
                    crate::chuoi::lemma_vt_byte_tang(s, k + 1, h + 1);
                    let dau = Seq::new(do_dai_byte(c), |t: int| vt_byte(s, k) as u32);
                    lemma_ma_dau(c, o1);
                    lemma_ghep_ban_do(dau, m1, vk, vt_byte(s, h + 1) as int, tong);
                },
                None => {
                    lemma_ban_do(s, k + 1);
                    let (o1, m1) = giai_tu(s, k + 1);
                    let dau = seq![vt_byte(s, k) as u32];
                    lemma_ma_dau('&', o1);
                    assert(('&' as u32) == 38);
                    assert(do_dai_byte('&') == 1);
                    lemma_ghep_ban_do(dau, m1, vk, vt_byte(s, k + 1) as int, tong);
                },
            }
        }
    }
}


fn giai_day(s: &str) -> (r: (Vec<char>, Vec<u32>))
    ensures
        r.0@ == giai_tu(s@, 0).0,
        r.1@ == giai_tu(s@, 0).1,
{
    let v = ky_tu(s);
    let b = bang_vi_tri(s);
    let mut o: Vec<char> = Vec::new();
    let mut m: Vec<u32> = Vec::new();
    let mut k: usize = 0;
    proof {
        assert forall|i: int, j: int| 0 <= i <= j <= s@.len() implies vt_byte(s@, i) <= vt_byte(s@, j) by {
            crate::chuoi::lemma_vt_byte_tang(s@, i, j);
        }
    }
    while k < v.len()
        invariant
            v@ == s@,
            b@.len() == s@.len() + 1,
            forall|q: int| 0 <= q <= s@.len() ==> #[trigger] b@[q] == vt_byte(s@, q),
            forall|i: int, j: int| 0 <= i <= j <= s@.len() ==> vt_byte(s@, i) <= vt_byte(s@, j),
            k <= v.len(),
            giai_tu(s@, 0).0 == o@ + giai_tu(s@, k as int).0,
            giai_tu(s@, 0).1 == m@ + giai_tu(s@, k as int).1,
        decreases v.len() - k,
    {
        let c = v[k];
        if c != '&' {
            let n = so_byte_ky_tu(c);
            let ghost m_cu = m@;
            let mut t: usize = 0;
            proof {
                crate::chuoi::lemma_vt_byte_buoc(s@, k as int);
                assert(b@[s@.len() as int] == vt_byte(s@, s@.len() as int));
            }
            while t < n
                invariant
                    t <= n,
                    n == do_dai_byte(c),
                    b@[k as int] + n == vt_byte(s@, k + 1),
                    vt_byte(s@, k + 1) <= vt_byte(s@, s@.len() as int),
                    vt_byte(s@, s@.len() as int) <= usize::MAX,
                    b@.len() == s@.len() + 1,
                    k < s@.len(),
                    forall|q: int| 0 <= q <= s@.len() ==> #[trigger] b@[q] == vt_byte(s@, q),
                    m@ == m_cu + Seq::new(t as nat, |q: int| (vt_byte(s@, k as int) + q) as u32),
                decreases n - t,
            {
                m.push((b[k] + t) as u32);
                assert(m@ =~= m_cu + Seq::new((t + 1) as nat, |q: int| (vt_byte(s@, k as int) + q) as u32));
                t += 1;
            }
            o.push(c);
            proof {
                let (ro, rm) = giai_tu(s@, k + 1);
                assert(giai_tu(s@, k as int).0 == seq![c] + ro);
                assert(o@ + ro =~= (o@.drop_last()) + (seq![c] + ro));
            }
            k += 1;
        } else {
            let mut h: usize = k;
            while h < v.len() && v[h] != ';'
                invariant
                    k <= h <= v.len(),
                    v@ == s@,
                    tim_cham_phay(s@, k as int) == tim_cham_phay(s@, h as int),
                decreases v.len() - h,
            {
                h += 1;
            }
            let ghost cu_o = o@;
            let ghost cu_m = m@;
            let mut xong = false;
            if h < v.len() && b[h] - b[k] <= 10 {
                let ten = crate::chuoi::cat_doan(&v, k + 1, h);
                match doi_ten(&ten) {
                    Some(x) => {
                        let n = so_byte_ky_tu(x);
                        let mut t: usize = 0;
                        while t < n
                            invariant
                                t <= n,
                                k < b@.len(),
                                b@[k as int] == vt_byte(s@, k as int),
                                m@ == cu_m + Seq::new(t as nat, |q: int| vt_byte(s@, k as int) as u32),
                            decreases n - t,
                        {
                            m.push(b[k] as u32);
                            assert(m@ =~= cu_m + Seq::new((t + 1) as nat, |q: int| vt_byte(s@, k as int) as u32));
                            t += 1;
                        }
                        o.push(x);
                        proof {
                            lemma_tim_cham_phay(s@, k as int);
                            let (ro, rm) = giai_tu(s@, h + 1);
                            assert(thuc_the_tai(s@, k as int) == Some((x, h as int)));
                            assert(giai_tu(s@, k as int).0 == seq![x] + ro);
                            assert(o@ + ro =~= cu_o + (seq![x] + ro));
                            assert(m@ + rm =~= cu_m + (Seq::new(do_dai_byte(x), |q: int| vt_byte(s@, k as int) as u32) + rm));
                        }
                        k = h + 1;
                        xong = true;
                    },
                    None => {},
                }
            }
            if !xong {
                o.push('&');
                m.push(b[k] as u32);
                proof {
                    lemma_tim_cham_phay(s@, k as int);
                    assert(thuc_the_tai(s@, k as int) is None);
                    let (ro, rm) = giai_tu(s@, k + 1);
                    assert(o@ + ro =~= cu_o + (seq!['&'] + ro));
                    assert(m@ + rm =~= cu_m + (seq![vt_byte(s@, k as int) as u32] + rm));
                }
                k += 1;
            }
        }
    }
    proof {
        assert(o@ + Seq::<char>::empty() =~= o@);
        assert(m@ + Seq::<u32>::empty() =~= m@);
    }
    (o, m)
}

pub proof fn lemma_khong_va(s: Seq<char>, k: int)
    requires
        0 <= k <= s.len(),
        !s.contains('&'),
    ensures
        giai_tu(s, k).0 == s.skip(k),
    decreases s.len() - k,
{
    if k < s.len() {
        assert(s[k] != '&');
        lemma_khong_va(s, k + 1);
        assert(s.skip(k) =~= seq![s[k]] + s.skip(k + 1));
    } else {
        assert(s.skip(k) =~= Seq::<char>::empty());
    }
}

/// Giải mã thực thể XML trong một đoạn chữ.
///
/// Chỉ nhận năm thực thể có tên mà XML định nghĩa sẵn, cộng `&nbsp;` và thực thể
/// số. Tên lạ, dấu `&` đứng một mình, hay thực thể dài quá 10 byte đều để nguyên.
pub fn giai_ma(s: &str) -> (r: String)
    ensures
        r@ == giai_tu(s@, 0).0,
{
    let (o, _) = giai_day(s);
    chuoi(&o)
}

/// Giải mã kèm **bản đồ vị trí ngược**: phần tử thứ `i` của bản đồ là vị trí byte
/// trong chuỗi gốc của byte thứ `i` trong chuỗi đã giải, thêm một phần tử cuối là
/// độ dài chuỗi gốc. Không có dấu `&` nào thì trả chuỗi nguyên vẹn và không kèm
/// bản đồ.
pub fn giai_ma_co_ban_do(s: &str) -> (r: (String, Option<Vec<u32>>))
    ensures
        r.0@ == giai_tu(s@, 0).0,
        !s@.contains('&') ==> r.0@ == s@ && r.1 is None,
        s@.contains('&') ==> (r.1 matches Some(bd) && bd@ == giai_tu(s@, 0).1.push(
            vstd::utf8::encode_utf8(s@).len() as u32,
        )),
        vstd::utf8::encode_utf8(s@).len() <= u32::MAX ==> (r.1 matches Some(bd) ==> {
            &&& bd@.len() == vstd::utf8::encode_utf8(r.0@).len() + 1
            &&& bd@.last() == vstd::utf8::encode_utf8(s@).len()
            &&& forall|i: int, j: int| 0 <= i <= j < bd@.len() ==> bd@[i] <= bd@[j]
            &&& forall|i: int| 0 <= i < bd@.len() - 1 ==> #[trigger] bd@[i] < vstd::utf8::encode_utf8(s@).len()
        }),
{
    let v = ky_tu(s);
    if !co_ky_tu(&v, '&') {
        proof {
            lemma_khong_va(s@, 0);
            assert(s@.skip(0) =~= s@);
        }
        return (chuoi(&v), None);
    }
    let (o, mut m) = giai_day(s);
    let tong = s.as_bytes().len();
    let ghost m0 = m@;
    m.push(tong as u32);
    proof {
        if vstd::utf8::encode_utf8(s@).len() <= u32::MAX {
            lemma_ban_do(s@, 0);
            assert forall|i: int, j: int| 0 <= i <= j < m@.len() implies m@[i] <= m@[j] by {
                if j < m0.len() {
                    assert(m@[i] == m0[i] && m@[j] == m0[j]);
                } else {
                    if i < m0.len() {
                        assert(m@[i] == m0[i]);
                    }
                }
            }
            assert forall|i: int| 0 <= i < m@.len() - 1 implies #[trigger] m@[i] < vstd::utf8::encode_utf8(s@).len() by {
                assert(m@[i] == m0[i]);
            }
        }
    }
    (chuoi(&o), Some(m))
}

/// Một ký tự khi mã hoá lại: chỉ `&`, `<`, `>` thành thực thể.
pub open spec fn ma_chu(c: char) -> Seq<char> {
    if c == '&' {
        seq!['&', 'a', 'm', 'p', ';']
    } else if c == '<' {
        seq!['&', 'l', 't', ';']
    } else if c == '>' {
        seq!['&', 'g', 't', ';']
    } else {
        seq![c]
    }
}

/// Mã hoá lại cả chuỗi.
pub open spec fn ma_hoa_spec(s: Seq<char>) -> Seq<char>
    decreases s.len(),
{
    if s.len() == 0 {
        seq![]
    } else {
        ma_chu(s[0]) + ma_hoa_spec(s.drop_first())
    }
}

proof fn lemma_ma_hoa_them(a: Seq<char>, c: char)
    ensures
        ma_hoa_spec(a.push(c)) == ma_hoa_spec(a) + ma_chu(c),
    decreases a.len(),
{
    if a.len() == 0 {
        assert(a.push(c).drop_first() =~= Seq::<char>::empty());
        assert(ma_hoa_spec(Seq::<char>::empty()) =~= Seq::<char>::empty());
        assert(ma_hoa_spec(a.push(c)) =~= ma_chu(c) + Seq::<char>::empty());
        assert(ma_hoa_spec(a) + ma_chu(c) =~= ma_chu(c));
    } else {
        lemma_ma_hoa_them(a.drop_first(), c);
        assert(a.push(c).drop_first() =~= a.drop_first().push(c));
        assert(ma_hoa_spec(a.push(c)) =~= ma_chu(a[0]) + (ma_hoa_spec(a.drop_first()) + ma_chu(c)));
    }
}

/// Mã hoá lại để nhét vào nội dung XML. Giải mã kết quả thì được đúng chuỗi
/// ban đầu ([`lemma_ma_hoa_roi_giai_ma`]).
pub fn ma_hoa(s: &str) -> (r: String)
    ensures
        r@ == ma_hoa_spec(s@),
        giai_tu(r@, 0).0 == s@,
{
    proof {
        lemma_ma_hoa_roi_giai_ma(s@);
    }
    let v = ky_tu(s);
    let mut o: Vec<char> = Vec::new();
    let mut i: usize = 0;
    assert(s@.take(0) =~= Seq::<char>::empty());
    while i < v.len()
        invariant
            v@ == s@,
            i <= v.len(),
            o@ == ma_hoa_spec(s@.take(i as int)),
        decreases v.len() - i,
    {
        let c = v[i];
        let them: Vec<char> = if c == '&' {
            vec!['&', 'a', 'm', 'p', ';']
        } else if c == '<' {
            vec!['&', 'l', 't', ';']
        } else if c == '>' {
            vec!['&', 'g', 't', ';']
        } else {
            vec![c]
        };
        o = crate::chuoi::noi(&o, &them);
        proof {
            assert(s@.take(i + 1) =~= s@.take(i as int).push(c));
            lemma_ma_hoa_them(s@.take(i as int), c);
        }
        i += 1;
    }
    assert(s@.take(v.len() as int) =~= s@);
    chuoi(&o)
}


proof fn lemma_vt_noi(p: Seq<char>, b: Seq<char>, x: int)
    requires
        0 <= x <= b.len(),
    ensures
        vt_byte(p + b, p.len() + x) == vstd::utf8::encode_utf8(p).len() + vt_byte(b, x),
{
    assert((p + b).take(p.len() + x) =~= p + b.take(x));
    crate::chuoi::lemma_ma_noi(p, b.take(x));
}

proof fn lemma_tim_noi(p: Seq<char>, b: Seq<char>, j: int)
    requires
        0 <= j,
    ensures
        tim_cham_phay(p + b, p.len() + j) == (match tim_cham_phay(b, j) {
            Some(h) => Some(h + p.len()),
            None => None,
        }),
    decreases b.len() - j,
{
    if j < b.len() {
        assert((p + b)[p.len() + j] == b[j]);
        if b[j] != ';' {
            lemma_tim_noi(p, b, j + 1);
        }
    }
}

proof fn lemma_giai_duoi(p: Seq<char>, b: Seq<char>, j: int)
    requires
        0 <= j,
    ensures
        giai_tu(p + b, p.len() + j).0 == giai_tu(b, j).0,
    decreases b.len() - j,
{
    let x = p + b;
    let k = p.len() + j;
    if j < b.len() {
        assert(x[k] == b[j]);
        if b[j] != '&' {
            lemma_giai_duoi(p, b, j + 1);
        } else {
            lemma_tim_noi(p, b, j);
            lemma_tim_cham_phay(b, j);
            match tim_cham_phay(b, j) {
                Some(h) => {
                    lemma_vt_noi(p, b, j);
                    lemma_vt_noi(p, b, h);
                    assert(x.subrange(k + 1, h + p.len()) =~= b.subrange(j + 1, h));
                    assert(thuc_the_tai(x, k) == (match thuc_the_tai(b, j) {
                        Some((c, hh)) => Some((c, hh + p.len())),
                        None => None,
                    }));
                    lemma_giai_duoi(p, b, h + 1);
                    lemma_giai_duoi(p, b, j + 1);
                },
                None => {
                    lemma_giai_duoi(p, b, j + 1);
                },
            }
        }
    }
}

proof fn lemma_mot_byte(c: char)
    requires
        (c as u32) <= 0x7F,
    ensures
        do_dai_byte(c) == 1,
{
}

/// Mã hoá lại rồi giải mã thì được đúng chuỗi ban đầu, với mọi chuỗi.
pub proof fn lemma_ma_hoa_roi_giai_ma(s: Seq<char>)
    ensures
        giai_tu(ma_hoa_spec(s), 0).0 == s,
    decreases s.len(),
{
    if s.len() == 0 {
        assert(ma_hoa_spec(s) =~= Seq::<char>::empty());
    } else {
        let c = s[0];
        let m = ma_chu(c);
        let r = ma_hoa_spec(s.drop_first());
        let x = m + r;
        assert(ma_hoa_spec(s) == x);
        lemma_ma_hoa_roi_giai_ma(s.drop_first());
        lemma_giai_duoi(m, r, 0);
        if c != '&' && c != '<' && c != '>' {
            assert(x[0] == c);
            assert(s =~= seq![c] + s.drop_first());
        } else {
            let ten = if c == '&' {
                seq!['a', 'm', 'p']
            } else if c == '<' {
                seq!['l', 't']
            } else {
                seq!['g', 't']
            };
            let n = ten.len() as int;
            assert(m =~= seq!['&'] + ten + seq![';']);
            assert(x[0] == '&');
            assert forall|q: int| 0 <= q < n + 1 implies x[q] != ';' by {
                if q > 0 {
                    assert(x[q] == ten[q - 1]);
                }
            }
            assert(x[n + 1] == ';');
            assert forall|q: int| 0 <= q <= n + 1 implies tim_cham_phay(x, q) == Some(n + 1) by {
                lemma_tim_lui(x, q, n + 1);
            }
            assert forall|q: int| 0 <= q <= n + 1 implies #[trigger] vt_byte(x, q) == q by {
                lemma_vt_ascii(x, q);
            }
            assert(x.subrange(1, n + 1) =~= ten);
            assert(thuc_the_tai(x, 0) == Some((c, n + 1)));
            assert(s =~= seq![c] + s.drop_first());
        }
    }
}

proof fn lemma_tim_lui(x: Seq<char>, q: int, h: int)
    requires
        0 <= q <= h < x.len(),
        x[h] == ';',
        forall|t: int| 0 <= t < h ==> x[t] != ';',
    ensures
        tim_cham_phay(x, q) == Some(h),
    decreases h - q,
{
    if q < h {
        lemma_tim_lui(x, q + 1, h);
    }
}

proof fn lemma_vt_ascii(x: Seq<char>, q: int)
    requires
        0 <= q <= x.len(),
        forall|t: int| 0 <= t < q ==> (x[t] as u32) <= 0x7F,
    ensures
        vt_byte(x, q) == q,
    decreases q,
{
    if q == 0 {
        assert(x.take(0) =~= Seq::<char>::empty());
    } else {
        lemma_vt_ascii(x, q - 1);
        crate::chuoi::lemma_vt_byte_buoc(x, q - 1);
        lemma_mot_byte(x[q - 1]);
    }
}


/// Tên thực thể nhận được dài ít nhất hai ký tự.
pub proof fn lemma_ten_dai(t: Seq<char>)
    ensures
        doi_ten_spec(t) is Some ==> t.len() >= 2,
{
}

proof fn lemma_vt_cach(s: Seq<char>, a: int, b: int)
    requires
        0 <= a <= b <= s.len(),
    ensures
        vt_byte(s, b) - vt_byte(s, a) >= b - a,
    decreases b - a,
{
    if a < b {
        lemma_vt_cach(s, a, b - 1);
        crate::chuoi::lemma_vt_byte_buoc(s, b - 1);
        lemma_do_dai_byte(s[b - 1]);
    }
}

/// Chữ đã giải mã không dài hơn (tính theo byte) phần văn bản gốc sinh ra nó.
pub proof fn lemma_giai_ngan(s: Seq<char>, k: int)
    requires
        0 <= k <= s.len(),
    ensures
        vstd::utf8::encode_utf8(giai_tu(s, k).0).len() + vt_byte(s, k) <= vstd::utf8::encode_utf8(s).len(),
    decreases s.len() - k,
{
    if k == s.len() {
        assert(s.take(k) =~= s);
        assert(giai_tu(s, k).0 =~= Seq::<char>::empty());
    } else {
        let c = s[k];
        crate::chuoi::lemma_vt_byte_buoc(s, k);
        if c != '&' {
            lemma_giai_ngan(s, k + 1);
            let (o, m) = giai_tu(s, k + 1);
            crate::chuoi::lemma_ma_noi(seq![c], o);
            crate::chuoi::lemma_ma_mot(c);
        } else {
            match thuc_the_tai(s, k) {
                Some((x, h)) => {
                    lemma_tim_cham_phay(s, k);
                    lemma_giai_ngan(s, h + 1);
                    let (o, m) = giai_tu(s, h + 1);
                    crate::chuoi::lemma_ma_noi(seq![x], o);
                    crate::chuoi::lemma_ma_mot(x);
                    lemma_ten_dai(s.subrange(k + 1, h));
                    lemma_vt_cach(s, k, h + 1);
                    lemma_do_dai_byte(x);
                },
                None => {
                    lemma_giai_ngan(s, k + 1);
                    let (o, m) = giai_tu(s, k + 1);
                    crate::chuoi::lemma_ma_noi(seq!['&'], o);
                    crate::chuoi::lemma_ma_mot('&');
                },
            }
        }
    }
}

} // verus!
