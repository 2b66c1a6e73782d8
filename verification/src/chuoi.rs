//! Chuỗi ký tự: chuyển giữa `&str` và dãy ký tự, và độ dài UTF-8.
use vstd::prelude::*;
use vstd::string::StringSliceAdditionalSpecFns;
use vstd::utf8::{encode_scalar, encode_utf8, is_char_boundary};

verus! {

broadcast use vstd::string::group_string_axioms;

/// Vị trí byte, trong mã UTF-8 của `s`, nơi ký tự thứ `k` bắt đầu.
pub open spec fn vt_byte(s: Seq<char>, k: int) -> nat {
    encode_utf8(s.take(k)).len()
}

/// Số byte UTF-8 của một ký tự.
pub open spec fn do_dai_byte(c: char) -> nat {
    encode_scalar(c as u32).len()
}

/// Mã UTF-8 của hai dãy nối nhau là hai mã nối nhau.
pub proof fn lemma_ma_noi(a: Seq<char>, b: Seq<char>)
    ensures
        encode_utf8(a + b) == encode_utf8(a) + encode_utf8(b),
    decreases a.len(),
{
    if a.len() == 0 {
        assert(a + b =~= b);
        assert(encode_utf8(a) + encode_utf8(b) =~= encode_utf8(b));
    } else {
        lemma_ma_noi(a.drop_first(), b);
        assert((a + b).drop_first() =~= a.drop_first() + b);
        assert((a + b)[0] == a[0]);
        assert(encode_utf8(a + b) =~= encode_utf8(a) + encode_utf8(b));
    }
}

/// Mỗi ký tự chiếm từ một tới bốn byte.
pub proof fn lemma_do_dai_byte(c: char)
    ensures
        1 <= do_dai_byte(c) <= 4,
{
}

/// Thêm một ký tự thì vị trí byte tăng đúng bằng độ dài UTF-8 của nó.
pub proof fn lemma_vt_byte_buoc(s: Seq<char>, k: int)
    requires
        0 <= k < s.len(),
    ensures
        vt_byte(s, k + 1) == vt_byte(s, k) + do_dai_byte(s[k]),
{
    assert(s.take(k + 1) =~= s.take(k) + seq![s[k]]);
    lemma_ma_noi(s.take(k), seq![s[k]]);
    lemma_ma_mot(s[k]);
}

/// Mã UTF-8 của một ký tự đứng riêng.
pub proof fn lemma_ma_mot(c: char)
    ensures
        encode_utf8(seq![c]) == encode_scalar(c as u32),
{
    assert(seq![c].drop_first() =~= Seq::<char>::empty());
    assert(encode_utf8(Seq::<char>::empty()) =~= Seq::<u8>::empty());
    assert(encode_utf8(seq![c]) =~= encode_scalar(c as u32) + encode_utf8(seq![c].drop_first()));
    assert(encode_utf8(seq![c]) =~= encode_scalar(c as u32));
}

/// Vị trí byte tăng ngặt theo chỉ số ký tự, và không vượt độ dài mã của cả dãy.
pub proof fn lemma_vt_byte_tang(s: Seq<char>, i: int, j: int)
    requires
        0 <= i <= j <= s.len(),
    ensures
        vt_byte(s, i) <= vt_byte(s, j),
        i < j ==> vt_byte(s, i) < vt_byte(s, j),
        vt_byte(s, j) <= encode_utf8(s).len(),
    decreases j - i,
{
    lemma_ma_noi(s.take(j), s.skip(j));
    assert(s.take(j) + s.skip(j) =~= s);
    if i < j {
        lemma_vt_byte_tang(s, i, j - 1);
        lemma_vt_byte_buoc(s, j - 1);
        lemma_do_dai_byte(s[j - 1]);
    }
}

/// Một vị trí byte là ranh giới ký tự (theo `str::is_char_boundary`) khi và chỉ
/// khi nó là vị trí bắt đầu của một ký tự, hoặc là cuối chuỗi.
pub proof fn lemma_ranh_gioi(s: Seq<char>, p: int)
    ensures
        is_char_boundary(encode_utf8(s), p) <==> exists|k: int| 0 <= k <= s.len() && #[trigger] vt_byte(s, k) == p,
    decreases s.len(),
{
    broadcast use vstd::utf8::encode_utf8_valid_utf8;

    let bytes = encode_utf8(s);
    assert(vt_byte(s, 0) == 0) by {
        assert(s.take(0) =~= Seq::<char>::empty());
    }
    if s.len() == 0 {
        assert(bytes =~= Seq::<u8>::empty());
        if exists|k: int| 0 <= k <= s.len() && #[trigger] vt_byte(s, k) == p {
            let k = choose|k: int| 0 <= k <= s.len() && #[trigger] vt_byte(s, k) == p;
            assert(k == 0);
        }
    } else {
        let r = s.drop_first();
        vstd::utf8::encode_utf8_first_scalar(s);
        let l = encode_scalar(s[0] as u32).len() as int;
        assert(vstd::utf8::pop_first_scalar(bytes) =~= encode_utf8(r));
        lemma_ranh_gioi(r, p - l);
        lemma_do_dai_byte(s[0]);
        assert forall|k: int| 0 <= k <= r.len() implies #[trigger] vt_byte(s, k + 1) == vt_byte(r, k) + l by {
            assert(s.take(k + 1) =~= seq![s[0]] + r.take(k));
            lemma_ma_noi(seq![s[0]], r.take(k));
            lemma_ma_mot(s[0]);
        }
        if p == 0 {
        } else if p < 0 || bytes.len() < p {
            if exists|k: int| 0 <= k <= s.len() && #[trigger] vt_byte(s, k) == p {
                let k = choose|k: int| 0 <= k <= s.len() && #[trigger] vt_byte(s, k) == p;
                lemma_vt_byte_tang(s, k, s.len() as int);
                assert(s.take(s.len() as int) =~= s);
            }
        } else {
            if is_char_boundary(bytes, p) {
                assert(is_char_boundary(encode_utf8(r), p - l));
                let k = choose|k: int| 0 <= k <= r.len() && #[trigger] vt_byte(r, k) == p - l;
                assert(vt_byte(s, k + 1) == p);
            }
            if exists|k: int| 0 <= k <= s.len() && #[trigger] vt_byte(s, k) == p {
                let k = choose|k: int| 0 <= k <= s.len() && #[trigger] vt_byte(s, k) == p;
                assert(k > 0);
                assert(vt_byte(s, (k - 1) + 1) == vt_byte(r, k - 1) + l);
                assert(vt_byte(r, k - 1) == p - l);
                assert(is_char_boundary(encode_utf8(r), p - l));
            }
        }
    }
}

/// Số byte UTF-8 của một ký tự, tính từ mã điểm.
pub fn so_byte_ky_tu(c: char) -> (n: usize)
    ensures
        n == do_dai_byte(c),
        1 <= n <= 4,
{
    proof {
        vstd::utf8::char_is_scalar(c);
    }
    let v = c as u32;
    if v <= 0x7F {
        1
    } else if v <= 0x7FF {
        2
    } else if v <= 0xFFFF {
        3
    } else {
        4
    }
}

/// Bảng vị trí byte của từng ký tự trong một chuỗi, thêm một ô cho cuối chuỗi.
pub fn bang_vi_tri(s: &str) -> (r: Vec<usize>)
    ensures
        r@.len() == s@.len() + 1,
        forall|k: int| 0 <= k <= s@.len() ==> #[trigger] r@[k] == vt_byte(s@, k),
        r@[s@.len() as int] == s.spec_bytes().len(),
{
    let v = ky_tu(s);
    let tong = s.as_bytes().len();
    let mut r: Vec<usize> = Vec::new();
    r.push(0);
    assert(s@.take(0) =~= Seq::<char>::empty());
    let mut i: usize = 0;
    let mut vt: usize = 0;
    while i < v.len()
        invariant
            v@ == s@,
            i <= v.len(),
            tong == encode_utf8(s@).len(),
            r@.len() == i + 1,
            vt == vt_byte(s@, i as int),
            forall|k: int| 0 <= k <= i ==> #[trigger] r@[k] == vt_byte(s@, k),
        decreases v.len() - i,
    {
        proof {
            lemma_vt_byte_buoc(s@, i as int);
            lemma_vt_byte_tang(s@, i + 1, s@.len() as int);
        }
        vt = vt + so_byte_ky_tu(v[i]);
        r.push(vt);
        i += 1;
    }
    proof {
        lemma_vt_byte_tang(s@, 0, s@.len() as int);
        assert(s@.take(s@.len() as int) =~= s@);
    }
    r
}

/// Tìm ký tự bắt đầu ở byte `p` trong một bảng vị trí tăng ngặt.
pub fn tim_vi_tri(b: &[usize], p: usize) -> (r: Option<usize>)
    requires
        forall|i: int, j: int| 0 <= i < j < b@.len() ==> b@[i] < b@[j],
    ensures
        match r {
            Some(k) => k < b@.len() && b@[k as int] == p,
            None => forall|k: int| 0 <= k < b@.len() ==> b@[k] != p,
        },
{
    let mut lo: usize = 0;
    let mut hi: usize = b.len();
    while lo < hi
        invariant
            lo <= hi <= b@.len(),
            forall|i: int, j: int| 0 <= i < j < b@.len() ==> b@[i] < b@[j],
            forall|k: int| 0 <= k < lo ==> b@[k] < p,
            forall|k: int| hi <= k < b@.len() ==> b@[k] > p,
        decreases hi - lo,
    {
        let giua = lo + (hi - lo) / 2;
        if b[giua] == p {
            return Some(giua);
        } else if b[giua] < p {
            lo = giua + 1;
        } else {
            hi = giua;
        }
    }
    None
}

/// Dãy ký tự của một chuỗi.
pub fn ky_tu(s: &str) -> (r: Vec<char>)
    ensures
        r@ == s@,
{
    let mut r: Vec<char> = Vec::new();
    for c in it: s.chars()
        invariant
            r@ == it.seq().take(it.index() as int),
            it.seq() == s@,
    {
        r.push(c);
        assert(r@ == it.seq().take(it.index() + 1));
    }
    r
}

#[verifier::external_body]
fn them_ky_tu(s: &mut String, c: char)
    ensures
        final(s)@ == old(s)@.push(c),
{
    s.push(c)
}

/// Chuỗi dựng từ một dãy ký tự.
pub fn chuoi(cs: &[char]) -> (r: String)
    ensures
        r@ == cs@,
{
    let mut r = String::new();
    let mut i: usize = 0;
    while i < cs.len()
        invariant
            i <= cs.len(),
            r@ == cs@.take(i as int),
        decreases cs.len() - i,
    {
        them_ky_tu(&mut r, cs[i]);
        assert(cs@.take(i + 1) == cs@.take(i as int).push(cs@[i as int]));
        i += 1;
    }
    assert(cs@.take(cs.len() as int) == cs@);
    r
}

} // verus!

verus! {

/// `p` đứng đầu `s`.
pub open spec fn la_dau(p: Seq<char>, s: Seq<char>) -> bool {
    p.len() <= s.len() && s.take(p.len() as int) == p
}

/// `p` đứng cuối `s`.
pub open spec fn la_cuoi(p: Seq<char>, s: Seq<char>) -> bool {
    p.len() <= s.len() && s.skip(s.len() - p.len()) == p
}

/// Chữ cái Latin ASCII.
pub open spec fn la_ascii_chu(c: char) -> bool {
    ('a' <= c && c <= 'z') || ('A' <= c && c <= 'Z')
}

/// Chữ số ASCII.
pub open spec fn la_ascii_so(c: char) -> bool {
    '0' <= c && c <= '9'
}

pub fn ascii_chu(c: char) -> (b: bool)
    ensures
        b == la_ascii_chu(c),
{
    ('a' <= c && c <= 'z') || ('A' <= c && c <= 'Z')
}

pub fn ascii_so(c: char) -> (b: bool)
    ensures
        b == la_ascii_so(c),
{
    '0' <= c && c <= '9'
}

/// Hai dãy ký tự bằng nhau.
pub fn bang_nhau(a: &[char], b: &[char]) -> (r: bool)
    ensures
        r == (a@ == b@),
{
    if a.len() != b.len() {
        return false;
    }
    let mut i: usize = 0;
    while i < a.len()
        invariant
            i <= a.len(),
            a.len() == b.len(),
            forall|k: int| 0 <= k < i ==> a@[k] == b@[k],
        decreases a.len() - i,
    {
        if a[i] != b[i] {
            return false;
        }
        i += 1;
    }
    assert(a@ =~= b@);
    true
}

/// `p` đứng đầu `s`.
pub fn dau_la(p: &[char], s: &[char]) -> (r: bool)
    ensures
        r == la_dau(p@, s@),
{
    if p.len() > s.len() {
        return false;
    }
    let mut i: usize = 0;
    while i < p.len()
        invariant
            i <= p.len(),
            p.len() <= s.len(),
            forall|k: int| 0 <= k < i ==> p@[k] == s@[k],
        decreases p.len() - i,
    {
        if p[i] != s[i] {
            assert(s@.take(p.len() as int)[i as int] == s@[i as int]);
            return false;
        }
        i += 1;
    }
    assert(s@.take(p.len() as int) =~= p@);
    true
}

/// `p` đứng cuối `s`.
pub fn cuoi_la(p: &[char], s: &[char]) -> (r: bool)
    ensures
        r == la_cuoi(p@, s@),
{
    if p.len() > s.len() {
        return false;
    }
    let lech = s.len() - p.len();
    let mut i: usize = 0;
    while i < p.len()
        invariant
            i <= p.len(),
            lech + p.len() == s.len(),
            forall|k: int| 0 <= k < i ==> p@[k] == s@[lech + k],
        decreases p.len() - i,
    {
        if p[i] != s[lech + i] {
            assert(s@.skip(lech as int)[i as int] == s@[lech + i]);
            return false;
        }
        i += 1;
    }
    assert(s@.skip(lech as int) =~= p@);
    true
}

/// Đoạn `[dau, cuoi)` của một dãy ký tự.
pub fn cat_doan(s: &[char], dau: usize, cuoi: usize) -> (r: Vec<char>)
    requires
        dau <= cuoi <= s.len(),
    ensures
        r@ == s@.subrange(dau as int, cuoi as int),
{
    let mut r: Vec<char> = Vec::new();
    let mut i = dau;
    while i < cuoi
        invariant
            dau <= i <= cuoi <= s.len(),
            r@ == s@.subrange(dau as int, i as int),
        decreases cuoi - i,
    {
        r.push(s[i]);
        assert(s@.subrange(dau as int, i + 1) == s@.subrange(dau as int, i as int).push(s@[i as int]));
        i += 1;
    }
    r
}

/// Ghép hai dãy ký tự.
pub fn noi(a: &[char], b: &[char]) -> (r: Vec<char>)
    ensures
        r@ == a@ + b@,
{
    let mut r = cat_doan(a, 0, a.len());
    let mut i: usize = 0;
    while i < b.len()
        invariant
            i <= b.len(),
            r@ == a@ + b@.take(i as int),
        decreases b.len() - i,
    {
        r.push(b[i]);
        assert(b@.take(i + 1) == b@.take(i as int).push(b@[i as int]));
        assert(a@ + b@.take(i + 1) == (a@ + b@.take(i as int)).push(b@[i as int]));
        i += 1;
    }
    assert(a@.subrange(0, a@.len() as int) == a@);
    assert(b@.take(b.len() as int) == b@);
    r
}

/// Dãy có chứa ký tự `c` không.
pub fn co_ky_tu(s: &[char], c: char) -> (r: bool)
    ensures
        r == s@.contains(c),
{
    let mut i: usize = 0;
    while i < s.len()
        invariant
            i <= s.len(),
            forall|k: int| 0 <= k < i ==> s@[k] != c,
        decreases s.len() - i,
    {
        if s[i] == c {
            return true;
        }
        i += 1;
    }
    false
}


/// Các chữ số dùng để viết số, từ `0` tới `F`.
pub open spec fn bang_chu_so() -> Seq<char> {
    seq!['0', '1', '2', '3', '4', '5', '6', '7', '8', '9', 'A', 'B', 'C', 'D', 'E', 'F']
}

/// Số `n` viết theo hệ mười, không có số không đứng đầu (như `{}` của Rust).
pub open spec fn so_muoi(n: nat) -> Seq<char>
    decreases n,
{
    if n < 10 {
        seq![bang_chu_so()[n as int]]
    } else {
        so_muoi(n / 10).push(bang_chu_so()[(n % 10) as int])
    }
}

/// Số `n` viết theo hệ mười sáu, chữ hoa, không có số không đứng đầu.
pub open spec fn so_hex(n: nat) -> Seq<char>
    decreases n,
{
    if n < 16 {
        seq![bang_chu_so()[n as int]]
    } else {
        so_hex(n / 16).push(bang_chu_so()[(n % 16) as int])
    }
}

/// Số `n` theo hệ mười sáu, chữ hoa, đệm số không bên trái cho đủ bốn chữ số
/// (như `{:04X}` của Rust).
pub open spec fn hex_bon(n: nat) -> Seq<char> {
    let h = so_hex(n);
    if h.len() >= 4 {
        h
    } else {
        Seq::new((4 - h.len()) as nat, |_i: int| '0') + h
    }
}

fn bang_chu_so_exec() -> (r: Vec<char>)
    ensures
        r@ == bang_chu_so(),
{
    let r = vec!['0', '1', '2', '3', '4', '5', '6', '7', '8', '9', 'A', 'B', 'C', 'D', 'E', 'F'];
    assert(r@ =~= bang_chu_so());
    r
}

/// Viết `n` theo hệ mười.
pub fn viet_so(n: usize) -> (r: Vec<char>)
    ensures
        r@ == so_muoi(n as nat),
    decreases n,
{
    let bang = bang_chu_so_exec();
    if n < 10 {
        let r = vec![bang[n]];
        assert(r@ =~= seq![bang_chu_so()[n as int]]);
        r
    } else {
        let mut r = viet_so(n / 10);
        r.push(bang[n % 10]);
        r
    }
}

fn viet_hex(n: u32) -> (r: Vec<char>)
    ensures
        r@ == so_hex(n as nat),
    decreases n,
{
    let bang = bang_chu_so_exec();
    if n < 16 {
        let r = vec![bang[n as usize]];
        assert(r@ =~= seq![bang_chu_so()[n as int]]);
        r
    } else {
        let mut r = viet_hex(n / 16);
        r.push(bang[(n % 16) as usize]);
        r
    }
}

/// Viết `n` theo hệ mười sáu, chữ hoa, đủ ít nhất bốn chữ số.
pub fn viet_hex_bon(n: u32) -> (r: Vec<char>)
    ensures
        r@ == hex_bon(n as nat),
{
    let h = viet_hex(n);
    if h.len() >= 4 {
        return h;
    }
    let mut r: Vec<char> = Vec::new();
    let thieu = 4 - h.len();
    let mut i: usize = 0;
    while i < thieu
        invariant
            i <= thieu,
            thieu == 4 - h@.len(),
            r@ =~= Seq::new(i as nat, |_i: int| '0'),
        decreases thieu - i,
    {
        r.push('0');
        i += 1;
    }
    let r2 = noi(&r, &h);
    assert(r2@ =~= hex_bon(n as nat));
    r2
}


/// Chỉ số dấu xuống dòng đầu tiên từ `i` trở đi, hoặc cuối chuỗi.
pub open spec fn het_dong(s: Seq<char>, i: int) -> int
    decreases s.len() - i,
{
    if i < 0 || i >= s.len() || s[i] == '\n' {
        i
    } else {
        het_dong(s, i + 1)
    }
}

/// Cuối dòng tìm từ `i` nằm trong chuỗi và là ký tự xuống dòng (hoặc cuối chuỗi).
pub proof fn lemma_het_dong(s: Seq<char>, i: int)
    requires
        0 <= i <= s.len(),
    ensures
        i <= het_dong(s, i) <= s.len(),
        het_dong(s, i) == s.len() || s[het_dong(s, i)] == '\n',
    decreases s.len() - i,
{
    if i < s.len() && s[i] != '\n' {
        lemma_het_dong(s, i + 1);
    }
}

/// Bỏ một dấu `\r` ở cuối dòng, nếu có.
pub open spec fn bo_cr(d: Seq<char>) -> Seq<char> {
    if d.len() > 0 && d.last() == '\r' {
        d.drop_last()
    } else {
        d
    }
}

/// Các dòng của `s` từ chỉ số `i`, như `str::lines`: cắt ở `\n`, bỏ `\r` cuối
/// dòng, và không có dòng rỗng sau dấu xuống dòng cuối cùng.
pub open spec fn dong_tu(s: Seq<char>, i: int) -> Seq<Seq<char>>
    decreases s.len() + 1 - i,
{
    if i < 0 || i >= s.len() {
        seq![]
    } else {
        let j = het_dong(s, i);
        proof {
            lemma_het_dong(s, i);
        }
        seq![bo_cr(s.subrange(i, j))] + dong_tu(s, j + 1)
    }
}

/// Cắt văn bản thành dòng (như `str::lines`).
pub fn cac_dong(s: &str) -> (r: Vec<Vec<char>>)
    ensures
        r@.map_values(|d: Vec<char>| d@) == dong_tu(s@, 0),
{
    let v = ky_tu(s);
    let n = v.len();
    let mut r: Vec<Vec<char>> = Vec::new();
    let mut i: usize = 0;
    assert(r@.map_values(|d: Vec<char>| d@) =~= Seq::<Seq<char>>::empty());
    while i < n
        invariant
            i <= n,
            n == s@.len(),
            v@ == s@,
            r@.map_values(|d: Vec<char>| d@) + dong_tu(s@, i as int) == dong_tu(s@, 0),
        decreases n - i,
    {
        let dau = i;
        proof {
            lemma_het_dong(s@, dau as int);
        }
        while i < n && v[i] != '\n'
            invariant
                dau <= i <= n,
                n == s@.len(),
                v@ == s@,
                het_dong(s@, dau as int) == het_dong(s@, i as int),
            decreases n - i,
        {
            i += 1;
        }
        let mut cuoi = i;
        if cuoi > dau && v[cuoi - 1] == '\r' {
            cuoi = cuoi - 1;
        }
        let d = cat_doan(&v, dau, cuoi);
        let ghost truoc = r@.map_values(|d: Vec<char>| d@);
        proof {
            let sub = s@.subrange(dau as int, i as int);
            if i > dau && v@[i - 1] == '\r' {
                assert(bo_cr(sub) =~= s@.subrange(dau as int, cuoi as int));
            } else {
                assert(bo_cr(sub) =~= s@.subrange(dau as int, cuoi as int));
            }
        }
        r.push(d);
        assert(r@.map_values(|d: Vec<char>| d@) =~= truoc + seq![bo_cr(s@.subrange(dau as int, i as int))]);
        if i < n {
            i += 1;
        } else {
            assert(dong_tu(s@, i + 1) =~= Seq::<Seq<char>>::empty());
        }
        assert(r@.map_values(|d: Vec<char>| d@) + dong_tu(s@, i as int) =~= truoc + dong_tu(s@, dau as int));
    }
    assert(r@.map_values(|d: Vec<char>| d@) =~= dong_tu(s@, 0));
    r
}

/// `a` đứng trước `b` theo thứ tự từ điển của mã ký tự (cũng là thứ tự byte UTF-8).
pub open spec fn nho_hon(a: Seq<char>, b: Seq<char>) -> bool
    decreases a.len(),
{
    if a.len() == 0 {
        b.len() > 0
    } else if b.len() == 0 {
        false
    } else if a[0] != b[0] {
        (a[0] as int) < (b[0] as int)
    } else {
        nho_hon(a.drop_first(), b.drop_first())
    }
}

/// Thứ tự từ điển có tính bắc cầu.
pub proof fn lemma_bac_cau(a: Seq<char>, b: Seq<char>, c: Seq<char>)
    requires
        nho_hon(a, b),
        nho_hon(b, c),
    ensures
        nho_hon(a, c),
    decreases a.len(),
{
    if a.len() > 0 && b.len() > 0 && c.len() > 0 && a[0] == b[0] && b[0] == c[0] {
        lemma_bac_cau(a.drop_first(), b.drop_first(), c.drop_first());
    }
}


/// So thứ tự từ điển của hai dãy ký tự.
pub fn nho_hon_exec(a: &[char], b: &[char]) -> (r: bool)
    ensures
        r == nho_hon(a@, b@),
{
    let mut i: usize = 0;
    assert(a@.skip(0) =~= a@);
    assert(b@.skip(0) =~= b@);
    while i < a.len() && i < b.len() && a[i] == b[i]
        invariant
            i <= a@.len(),
            i <= b@.len(),
            nho_hon(a@, b@) == nho_hon(a@.skip(i as int), b@.skip(i as int)),
        decreases a.len() - i,
    {
        assert(a@.skip(i as int).drop_first() =~= a@.skip(i + 1));
        assert(b@.skip(i as int).drop_first() =~= b@.skip(i + 1));
        i += 1;
    }
    if i == a.len() {
        i < b.len()
    } else if i == b.len() {
        false
    } else {
        a[i] < b[i]
    }
}

} // verus!
