//! Quét một file XHTML thành các **đoạn văn bản đọc được**, kèm đường về.
//!
//! **Không dựng cây DOM rồi in lại**: in lại cây bao giờ cũng khác bản gốc. Ở đây
//! chỉ **vá từng khoảng byte** đúng chỗ chữ cần sửa; mọi byte khác giữ nguyên.
//!
//! **Nối các nút văn bản trong cùng một khối**: `khô<i>ng</i>` nằm trong file
//! thành hai nút, nên các nút được nối lại thành một chuỗi liền theo khối, dò
//! trên chuỗi ấy, rồi ánh xạ ngược về đúng nút và đúng byte.
use vstd::prelude::*;
use std::ops::Range;
use vstd::utf8::encode_utf8;
use crate::hoa_thuong::{la_trang, trang};
use crate::thuc_the::giai_tu;
use crate::chuoi::{
    bang_nhau, bang_vi_tri, cat_doan, chuoi, ky_tu, la_ascii_chu, la_ascii_so, lemma_vt_byte_tang, noi, vt_byte,
};

verus! {

/// Dãy ký tự `p` xuất hiện tại vị trí `i` của `f`.
pub open spec fn co_tai(f: Seq<char>, i: int, p: Seq<char>) -> bool {
    0 <= i && i + p.len() <= f.len() && f.subrange(i, i + p.len()) == p
}

/// Vị trí ngay sau lần xuất hiện đầu tiên của `moc` từ chỉ số `i` trở đi, hoặc
/// cuối chuỗi.
pub open spec fn tim_sau_spec(f: Seq<char>, i: int, moc: Seq<char>) -> int
    decreases f.len() - i,
{
    if i < 0 || i >= f.len() || i + moc.len() > f.len() {
        f.len() as int
    } else if co_tai(f, i, moc) {
        i + moc.len()
    } else {
        tim_sau_spec(f, i + 1, moc)
    }
}

/// Vị trí sau mốc tìm từ `i` nằm trong file và tiến lên ít nhất một ký tự.
pub proof fn lemma_tim_sau(f: Seq<char>, i: int, moc: Seq<char>)
    requires
        0 <= i <= f.len(),
        moc.len() > 0,
    ensures
        i < tim_sau_spec(f, i, moc) <= f.len() || (i == f.len() && tim_sau_spec(f, i, moc) == f.len()),
    decreases f.len() - i,
{
    if i + moc.len() <= f.len() && !co_tai(f, i, moc) {
        lemma_tim_sau(f, i + 1, moc);
    }
}

fn co_tai_exec(f: &[char], i: usize, p: &[char]) -> (r: bool)
    ensures
        r == co_tai(f@, i as int, p@),
{
    if i > f.len() || p.len() > f.len() - i {
        return false;
    }
    let mut k: usize = 0;
    while k < p.len()
        invariant
            i + p.len() <= f.len(),
            k <= p.len(),
            forall|t: int| 0 <= t < k ==> f@[i + t] == p@[t],
        decreases p.len() - k,
    {
        if f[i + k] != p[k] {
            assert(f@.subrange(i as int, i + p.len())[k as int] != p@[k as int]);
            return false;
        }
        k += 1;
    }
    assert(f@.subrange(i as int, i + p.len()) =~= p@);
    true
}

fn tim_sau(f: &[char], tu: usize, moc: &[char]) -> (r: usize)
    requires
        tu <= f.len(),
        moc.len() > 0,
    ensures
        r == tim_sau_spec(f@, tu as int, moc@),
        r <= f.len(),
{
    let mut i = tu;
    while i <= f.len() && moc.len() <= f.len() - i
        invariant
            tu <= i,
            moc.len() > 0,
            tim_sau_spec(f@, tu as int, moc@) == tim_sau_spec(f@, i as int, moc@),
        decreases f.len() + 1 - i,
    {
        if co_tai_exec(f, i, moc) {
            return i + moc.len();
        }
        i += 1;
    }
    f.len()
}

/// Vị trí ngay sau dấu `>` đóng thẻ bắt đầu từ `i`, với `nhay` là dấu nháy đang
/// mở (hoặc `'\0'`). Dấu `>` nằm trong giá trị thuộc tính đặt trong nháy không
/// đóng thẻ.
pub open spec fn het_the_tu(f: Seq<char>, i: int, nhay: char) -> int
    decreases f.len() - i,
{
    if i < 0 || i >= f.len() {
        f.len() as int
    } else {
        let c = f[i];
        if (c == '"' || c == '\'') && nhay == '\0' {
            het_the_tu(f, i + 1, c)
        } else if c == nhay {
            het_the_tu(f, i + 1, '\0')
        } else if c == '>' && nhay == '\0' {
            i + 1
        } else {
            het_the_tu(f, i + 1, nhay)
        }
    }
}

/// Vị trí ngay sau dấu `>` đóng thẻ mở ở `tu`, tôn trọng dấu nháy; hết chuỗi thì
/// trả độ dài chuỗi.
pub open spec fn het_the_spec(f: Seq<char>, tu: int) -> int {
    het_the_tu(f, tu + 1, '\0')
}

/// Cuối thẻ tìm từ `i` nằm trong file và không lùi.
pub proof fn lemma_het_the(f: Seq<char>, i: int, nhay: char)
    requires
        0 <= i,
    ensures
        het_the_tu(f, i, nhay) <= f.len() || i > f.len(),
        i <= f.len() ==> i <= het_the_tu(f, i, nhay),
        i < f.len() ==> i < het_the_tu(f, i, nhay),
    decreases f.len() - i,
{
    if i < f.len() {
        lemma_het_the(f, i + 1, '\0');
        lemma_het_the(f, i + 1, f[i]);
        lemma_het_the(f, i + 1, nhay);
    }
}

fn het_the(f: &[char], tu: usize) -> (r: usize)
    requires
        tu < f.len(),
    ensures
        r == het_the_spec(f@, tu as int),
        tu < r <= f.len(),
{
    proof {
        lemma_het_the(f@, tu + 1, '\0');
    }
    let mut i = tu + 1;
    let mut nhay: char = '\0';
    while i < f.len()
        invariant
            tu < i <= f.len(),
            het_the_spec(f@, tu as int) == het_the_tu(f@, i as int, nhay),
        decreases f.len() - i,
    {
        let c = f[i];
        if (c == '"' || c == '\'') && nhay == '\0' {
            nhay = c;
        } else if c == nhay {
            nhay = '\0';
        } else if c == '>' && nhay == '\0' {
            return i + 1;
        }
        i += 1;
    }
    f.len()
}

/// Bỏ mọi dấu `<` ở đầu.
pub open spec fn bo_mo(t: Seq<char>) -> Seq<char>
    decreases t.len(),
{
    if t.len() > 0 && t[0] == '<' {
        bo_mo(t.drop_first())
    } else {
        t
    }
}

/// Bỏ mọi dấu `>` ở cuối.
pub open spec fn bo_dong(t: Seq<char>) -> Seq<char>
    decreases t.len(),
{
    if t.len() > 0 && t.last() == '>' {
        bo_dong(t.drop_last())
    } else {
        t
    }
}

/// Ký tự được phép trong tên thẻ: chữ, số ASCII, hoặc `:`.
pub open spec fn ky_tu_ten(c: char) -> bool {
    la_ascii_chu(c) || la_ascii_so(c) || c == ':'
}

/// Đoạn đầu dài nhất gồm toàn ký tự tên.
pub open spec fn lay_ten(t: Seq<char>) -> Seq<char>
    decreases t.len(),
{
    if t.len() > 0 && ky_tu_ten(t[0]) {
        seq![t[0]] + lay_ten(t.drop_first())
    } else {
        seq![]
    }
}

/// Phần đứng sau dấu `:` cuối cùng (hoặc cả chuỗi khi không có).
pub open spec fn sau_hai_cham(t: Seq<char>) -> Seq<char>
    decreases t.len(),
{
    if t.len() == 0 {
        t
    } else if t.last() == ':' {
        seq![]
    } else {
        sau_hai_cham(t.drop_last()).push(t.last())
    }
}

/// Hạ chữ hoa ASCII thành chữ thường, để nguyên ký tự khác.
pub open spec fn thuong_ascii(c: char) -> char {
    if 'A' <= c && c <= 'Z' {
        ((c as u32) + 32) as char
    } else {
        c
    }
}

/// Tên thẻ viết thường (bỏ tiền tố namespace), và thẻ ấy có phải thẻ đóng không.
pub open spec fn doc_ten_spec(the: Seq<char>) -> (Seq<char>, bool) {
    let than = bo_dong(bo_mo(the));
    let dong = than.len() > 0 && than[0] == '/';
    let than2 = if dong { than.drop_first() } else { than };
    let ten = sau_hai_cham(lay_ten(than2));
    (ten.map_values(|c: char| thuong_ascii(c)), dong)
}

fn thuong_ascii_exec(c: char) -> (r: char)
    ensures
        r == thuong_ascii(c),
{
    if 'A' <= c && c <= 'Z' {
        match c {
            'A' => 'a', 'B' => 'b', 'C' => 'c', 'D' => 'd', 'E' => 'e', 'F' => 'f', 'G' => 'g',
            'H' => 'h', 'I' => 'i', 'J' => 'j', 'K' => 'k', 'L' => 'l', 'M' => 'm', 'N' => 'n',
            'O' => 'o', 'P' => 'p', 'Q' => 'q', 'R' => 'r', 'S' => 's', 'T' => 't', 'U' => 'u',
            'V' => 'v', 'W' => 'w', 'X' => 'x', 'Y' => 'y', _ => 'z',
        }
    } else {
        c
    }
}

proof fn lemma_bo_mo(t: Seq<char>, i: int)
    requires
        0 <= i <= t.len(),
        forall|q: int| 0 <= q < i ==> t[q] == '<',
    ensures
        bo_mo(t) == bo_mo(t.skip(i)),
    decreases i,
{
    if i > 0 {
        assert(t.skip(1).skip(i - 1) =~= t.skip(i));
        assert(t.drop_first() =~= t.skip(1));
        lemma_bo_mo(t.drop_first(), i - 1);
    } else {
        assert(t.skip(0) =~= t);
    }
}

proof fn lemma_bo_dong(t: Seq<char>, e: int)
    requires
        0 <= e <= t.len(),
        forall|q: int| e <= q < t.len() ==> t[q] == '>',
    ensures
        bo_dong(t) == bo_dong(t.take(e)),
    decreases t.len() - e,
{
    if e < t.len() {
        assert(t.drop_last().take(e) =~= t.take(e));
        lemma_bo_dong(t.drop_last(), e);
    } else {
        assert(t.take(e) =~= t);
    }
}

proof fn lemma_lay_ten(t: Seq<char>, k: int)
    requires
        0 <= k <= t.len(),
        forall|q: int| 0 <= q < k ==> ky_tu_ten(t[q]),
        k == t.len() || !ky_tu_ten(t[k]),
    ensures
        lay_ten(t) == t.take(k),
    decreases k,
{
    if k > 0 {
        lemma_lay_ten(t.drop_first(), k - 1);
        assert(t.take(k) =~= seq![t[0]] + t.drop_first().take(k - 1));
    } else {
        assert(t.take(0) =~= Seq::<char>::empty());
    }
}

proof fn lemma_sau_hai_cham(t: Seq<char>, k: int)
    requires
        0 <= k <= t.len(),
        k == 0 || t[k - 1] == ':',
        forall|q: int| k <= q < t.len() ==> t[q] != ':',
    ensures
        sau_hai_cham(t) == t.skip(k),
    decreases t.len() - k,
{
    if t.len() == k {
        assert(t.skip(k) =~= Seq::<char>::empty());
        if k > 0 {
            assert(t.last() == ':');
        }
    } else {
        lemma_sau_hai_cham(t.drop_last(), k);
        assert(t.skip(k) =~= t.drop_last().skip(k).push(t.last()));
    }
}

fn doc_ten(the: &[char]) -> (r: (Vec<char>, bool))
    ensures
        r.0@ == doc_ten_spec(the@).0,
        r.1 == doc_ten_spec(the@).1,
{
    let mut a: usize = 0;
    while a < the.len() && the[a] == '<'
        invariant
            a <= the.len(),
            forall|q: int| 0 <= q < a ==> the@[q] == '<',
        decreases the.len() - a,
    {
        a += 1;
    }
    proof {
        lemma_bo_mo(the@, a as int);
    }
    let mo = cat_doan(the, a, the.len());
    assert(mo@ == the@.skip(a as int));
    assert(bo_mo(mo@) == mo@) by {
        if mo@.len() > 0 {
            assert(mo@[0] == the@[a as int]);
        }
    }
    let mut e: usize = mo.len();
    while e > 0 && mo[e - 1] == '>'
        invariant
            e <= mo.len(),
            forall|q: int| e <= q < mo@.len() ==> mo@[q] == '>',
        decreases e,
    {
        e -= 1;
    }
    proof {
        lemma_bo_dong(mo@, e as int);
    }
    let than = cat_doan(&mo, 0, e);
    assert(than@ == mo@.take(e as int));
    assert(bo_dong(than@) == than@) by {
        if than@.len() > 0 {
            assert(than@.last() == mo@[e - 1]);
        }
    }
    let dong = than.len() > 0 && than[0] == '/';
    let than2 = if dong { cat_doan(&than, 1, than.len()) } else { cat_doan(&than, 0, than.len()) };
    assert(than2@ == (if dong { than@.drop_first() } else { than@ }));
    let mut k: usize = 0;
    while k < than2.len() && (crate::chuoi::ascii_chu(than2[k]) || crate::chuoi::ascii_so(than2[k]) || than2[k] == ':')
        invariant
            k <= than2.len(),
            forall|q: int| 0 <= q < k ==> ky_tu_ten(than2@[q]),
        decreases than2.len() - k,
    {
        k += 1;
    }
    proof {
        lemma_lay_ten(than2@, k as int);
    }
    let lay = cat_doan(&than2, 0, k);
    let mut c: usize = lay.len();
    while c > 0 && lay[c - 1] != ':'
        invariant
            c <= lay.len(),
            forall|q: int| c <= q < lay@.len() ==> lay@[q] != ':',
        decreases c,
    {
        c -= 1;
    }
    proof {
        lemma_sau_hai_cham(lay@, c as int);
    }
    let ten = cat_doan(&lay, c, lay.len());
    let mut ra: Vec<char> = Vec::new();
    let mut i: usize = 0;
    while i < ten.len()
        invariant
            i <= ten.len(),
            ra@ == ten@.take(i as int).map_values(|c: char| thuong_ascii(c)),
        decreases ten.len() - i,
    {
        ra.push(thuong_ascii_exec(ten[i]));
        assert(ten@.take(i + 1) =~= ten@.take(i as int).push(ten@[i as int]));
        assert(ra@ =~= ten@.take(i + 1).map_values(|c: char| thuong_ascii(c)));
        i += 1;
    }
    assert(ten@.take(ten@.len() as int) =~= ten@);
    assert(lay@.skip(c as int) =~= ten@);
    (ra, dong)
}

/// Thẻ chỉ đổi **cách hiển thị chữ**, không đổi nội dung hay thứ tự của nó.
pub open spec fn the_dinh_dang() -> Seq<Seq<char>> {
    seq![
        seq!['i'], seq!['b'], seq!['e', 'm'], seq!['s', 't', 'r', 'o', 'n', 'g'], seq!['s', 'p', 'a', 'n'],
        seq!['u'], seq!['s'], seq!['s', 'm', 'a', 'l', 'l'], seq!['b', 'i', 'g'],
    ]
}

/// Thẻ mà nội dung bên trong không phải văn xuôi — bỏ hẳn.
pub open spec fn the_bo_qua() -> Seq<Seq<char>> {
    seq![
        seq!['s', 'c', 'r', 'i', 'p', 't'], seq!['s', 't', 'y', 'l', 'e'], seq!['c', 'o', 'd', 'e'],
        seq!['p', 'r', 'e'],
    ]
}

/// Thẻ khối: gặp thì ngắt đoạn.
pub open spec fn the_khoi() -> Seq<Seq<char>> {
    seq![
        seq!['p'], seq!['d', 'i', 'v'], seq!['b', 'r'], seq!['h', '1'], seq!['h', '2'], seq!['h', '3'],
        seq!['h', '4'], seq!['h', '5'], seq!['h', '6'], seq!['l', 'i'], seq!['t', 'd'], seq!['t', 'h'],
        seq!['t', 'r'], seq!['b', 'l', 'o', 'c', 'k', 'q', 'u', 'o', 't', 'e'],
        seq!['s', 'e', 'c', 't', 'i', 'o', 'n'], seq!['a', 'r', 't', 'i', 'c', 'l', 'e'], seq!['h', 'r'],
        seq!['t', 'a', 'b', 'l', 'e'], seq!['u', 'l'], seq!['o', 'l'], seq!['d', 'l'], seq!['d', 'd'],
        seq!['d', 't'], seq!['f', 'i', 'g', 'u', 'r', 'e'],
        seq!['f', 'i', 'g', 'c', 'a', 'p', 't', 'i', 'o', 'n'], seq!['a', 's', 'i', 'd', 'e'],
        seq!['b', 'o', 'd', 'y'], seq!['h', 't', 'm', 'l'], seq!['h', 'e', 'a', 'd'],
        seq!['t', 'i', 't', 'l', 'e'], seq!['m', 'e', 't', 'a'], seq!['l', 'i', 'n', 'k'],
    ]
}

fn bang_the_dinh_dang() -> (r: Vec<Vec<char>>)
    ensures
        crate::ung_vien::dv(r@) == the_dinh_dang(),
{
    let r = vec![
        vec!['i'], vec!['b'], vec!['e', 'm'], vec!['s', 't', 'r', 'o', 'n', 'g'], vec!['s', 'p', 'a', 'n'],
        vec!['u'], vec!['s'], vec!['s', 'm', 'a', 'l', 'l'], vec!['b', 'i', 'g'],
    ];
    assert(r@[0]@ =~= seq!['i']);
    assert(r@[1]@ =~= seq!['b']);
    assert(r@[2]@ =~= seq!['e', 'm']);
    assert(r@[3]@ =~= seq!['s', 't', 'r', 'o', 'n', 'g']);
    assert(r@[4]@ =~= seq!['s', 'p', 'a', 'n']);
    assert(r@[5]@ =~= seq!['u']);
    assert(r@[6]@ =~= seq!['s']);
    assert(r@[7]@ =~= seq!['s', 'm', 'a', 'l', 'l']);
    assert(r@[8]@ =~= seq!['b', 'i', 'g']);
    assert(crate::ung_vien::dv(r@) =~= the_dinh_dang());
    r
}

fn bang_the_bo_qua() -> (r: Vec<Vec<char>>)
    ensures
        crate::ung_vien::dv(r@) == the_bo_qua(),
{
    let r = vec![
        vec!['s', 'c', 'r', 'i', 'p', 't'], vec!['s', 't', 'y', 'l', 'e'], vec!['c', 'o', 'd', 'e'],
        vec!['p', 'r', 'e'],
    ];
    assert(r@[0]@ =~= seq!['s', 'c', 'r', 'i', 'p', 't']);
    assert(r@[1]@ =~= seq!['s', 't', 'y', 'l', 'e']);
    assert(r@[2]@ =~= seq!['c', 'o', 'd', 'e']);
    assert(r@[3]@ =~= seq!['p', 'r', 'e']);
    assert(crate::ung_vien::dv(r@) =~= the_bo_qua());
    r
}

fn bang_the_khoi() -> (r: Vec<Vec<char>>)
    ensures
        crate::ung_vien::dv(r@) == the_khoi(),
{
    let r = vec![
        vec!['p'], vec!['d', 'i', 'v'], vec!['b', 'r'], vec!['h', '1'], vec!['h', '2'], vec!['h', '3'],
        vec!['h', '4'], vec!['h', '5'], vec!['h', '6'], vec!['l', 'i'], vec!['t', 'd'], vec!['t', 'h'],
        vec!['t', 'r'], vec!['b', 'l', 'o', 'c', 'k', 'q', 'u', 'o', 't', 'e'],
        vec!['s', 'e', 'c', 't', 'i', 'o', 'n'], vec!['a', 'r', 't', 'i', 'c', 'l', 'e'], vec!['h', 'r'],
        vec!['t', 'a', 'b', 'l', 'e'], vec!['u', 'l'], vec!['o', 'l'], vec!['d', 'l'], vec!['d', 'd'],
        vec!['d', 't'], vec!['f', 'i', 'g', 'u', 'r', 'e'],
        vec!['f', 'i', 'g', 'c', 'a', 'p', 't', 'i', 'o', 'n'], vec!['a', 's', 'i', 'd', 'e'],
        vec!['b', 'o', 'd', 'y'], vec!['h', 't', 'm', 'l'], vec!['h', 'e', 'a', 'd'],
        vec!['t', 'i', 't', 'l', 'e'], vec!['m', 'e', 't', 'a'], vec!['l', 'i', 'n', 'k'],
    ];
    assert(r@[0]@ =~= seq!['p']);
    assert(r@[1]@ =~= seq!['d', 'i', 'v']);
    assert(r@[2]@ =~= seq!['b', 'r']);
    assert(r@[3]@ =~= seq!['h', '1']);
    assert(r@[4]@ =~= seq!['h', '2']);
    assert(r@[5]@ =~= seq!['h', '3']);
    assert(r@[6]@ =~= seq!['h', '4']);
    assert(r@[7]@ =~= seq!['h', '5']);
    assert(r@[8]@ =~= seq!['h', '6']);
    assert(r@[9]@ =~= seq!['l', 'i']);
    assert(r@[10]@ =~= seq!['t', 'd']);
    assert(r@[11]@ =~= seq!['t', 'h']);
    assert(r@[12]@ =~= seq!['t', 'r']);
    assert(r@[13]@ =~= seq!['b', 'l', 'o', 'c', 'k', 'q', 'u', 'o', 't', 'e']);
    assert(r@[14]@ =~= seq!['s', 'e', 'c', 't', 'i', 'o', 'n']);
    assert(r@[15]@ =~= seq!['a', 'r', 't', 'i', 'c', 'l', 'e']);
    assert(r@[16]@ =~= seq!['h', 'r']);
    assert(r@[17]@ =~= seq!['t', 'a', 'b', 'l', 'e']);
    assert(r@[18]@ =~= seq!['u', 'l']);
    assert(r@[19]@ =~= seq!['o', 'l']);
    assert(r@[20]@ =~= seq!['d', 'l']);
    assert(r@[21]@ =~= seq!['d', 'd']);
    assert(r@[22]@ =~= seq!['d', 't']);
    assert(r@[23]@ =~= seq!['f', 'i', 'g', 'u', 'r', 'e']);
    assert(r@[24]@ =~= seq!['f', 'i', 'g', 'c', 'a', 'p', 't', 'i', 'o', 'n']);
    assert(r@[25]@ =~= seq!['a', 's', 'i', 'd', 'e']);
    assert(r@[26]@ =~= seq!['b', 'o', 'd', 'y']);
    assert(r@[27]@ =~= seq!['h', 't', 'm', 'l']);
    assert(r@[28]@ =~= seq!['h', 'e', 'a', 'd']);
    assert(r@[29]@ =~= seq!['t', 'i', 't', 'l', 'e']);
    assert(r@[30]@ =~= seq!['m', 'e', 't', 'a']);
    assert(r@[31]@ =~= seq!['l', 'i', 'n', 'k']);
    assert(crate::ung_vien::dv(r@) =~= the_khoi());
    r
}

fn co_trong(ten: &[char], ds: &Vec<Vec<char>>) -> (r: bool)
    ensures
        r == crate::ung_vien::dv(ds@).contains(ten@),
{
    let mut i: usize = 0;
    while i < ds.len()
        invariant
            i <= ds.len(),
            forall|q: int| 0 <= q < i ==> ds@[q]@ != ten@,
        decreases ds.len() - i,
    {
        if bang_nhau(&ds[i], ten) {
            assert(crate::ung_vien::dv(ds@)[i as int] == ten@);
            return true;
        }
        i += 1;
    }
    assert(!crate::ung_vien::dv(ds@).contains(ten@)) by {
        if crate::ung_vien::dv(ds@).contains(ten@) {
            let q = choose|q: int| 0 <= q < ds@.len() && crate::ung_vien::dv(ds@)[q] == ten@;
            assert(ds@[q]@ == ten@);
        }
    }
    false
}


/// Ký tự trắng ASCII (`u8::is_ascii_whitespace`).
pub open spec fn trang_ascii(c: char) -> bool {
    c == ' ' || c == '\t' || c == '\n' || c == '\x0C' || c == '\r'
}

/// Từ chỉ số `i`, phần còn lại của `g` chỉ gồm khoảng trắng và thẻ định dạng.
pub open spec fn toan_the_tu(g: Seq<char>, i: int) -> bool
    decreases g.len() - i,
{
    if i < 0 || i >= g.len() {
        true
    } else if trang_ascii(g[i]) {
        toan_the_tu(g, i + 1)
    } else if g[i] != '<' {
        false
    } else {
        let het = het_the_spec(g, i);
        proof {
            lemma_het_the(g, i + 1, '\0');
        }
        if !the_dinh_dang().contains(doc_ten_spec(g.subrange(i, het)).0) {
            false
        } else {
            toan_the_tu(g, het)
        }
    }
}

fn chi_toan_the_dinh_dang(g: &[char]) -> (r: bool)
    ensures
        r == toan_the_tu(g@, 0),
{
    let ds = bang_the_dinh_dang();
    let mut i: usize = 0;
    while i < g.len()
        invariant
            i <= g.len(),
            crate::ung_vien::dv(ds@) == the_dinh_dang(),
            toan_the_tu(g@, 0) == toan_the_tu(g@, i as int),
        decreases g.len() - i,
    {
        let c = g[i];
        if c == ' ' || c == '\t' || c == '\n' || c == '\x0C' || c == '\r' {
            i += 1;
        } else if c != '<' {
            return false;
        } else {
            let het = het_the(g, i);
            let the = cat_doan(g, i, het);
            let (ten, _) = doc_ten(&the);
            if !co_trong(&ten, &ds) {
                return false;
            }
            i = het;
        }
    }
    true
}

/// Một mảnh ở dạng toán học.
pub struct ManhV {
    pub doan_dau: nat,
    pub doan_cuoi: nat,
    pub file_dau: nat,
    pub file_cuoi: nat,
    pub ban_do: Option<Seq<u32>>,
}

/// Một mảnh văn bản liền mạch trong file — đúng một nút văn bản XHTML.
#[derive(Debug)]
pub struct Manh {
    /// Vị trí trong chuỗi [`Doan::chu`].
    pub trong_doan: Range<usize>,
    /// Vị trí byte của mảnh thô trong file.
    pub trong_file: Range<usize>,
    /// Bản đồ vị-trí-đã-giải-mã → vị-trí-thô. `None` nghĩa là trùng khít.
    ban_do: Option<Vec<u32>>,
}

impl View for Manh {
    type V = ManhV;

    closed spec fn view(&self) -> ManhV {
        ManhV {
            doan_dau: self.trong_doan.start as nat,
            doan_cuoi: self.trong_doan.end as nat,
            file_dau: self.trong_file.start as nat,
            file_cuoi: self.trong_file.end as nat,
            ban_do: match self.ban_do {
                Some(v) => Some(v@),
                None => None,
            },
        }
    }
}

fn chep_ban_do(v: &Vec<u32>) -> (r: Vec<u32>)
    ensures
        r@ == v@,
{
    let mut r: Vec<u32> = Vec::new();
    let mut i: usize = 0;
    while i < v.len()
        invariant
            i <= v.len(),
            r@ == v@.take(i as int),
        decreases v.len() - i,
    {
        r.push(v[i]);
        assert(v@.take(i + 1) =~= v@.take(i as int).push(v@[i as int]));
        i += 1;
    }
    assert(v@.take(v.len() as int) =~= v@);
    r
}

impl Clone for Manh {
    fn clone(&self) -> (r: Manh)
        ensures
            r@ == self@,
    {
        let ban_do = match &self.ban_do {
            Some(v) => Some(chep_ban_do(v)),
            None => None,
        };
        Manh {
            trong_doan: self.trong_doan.start..self.trong_doan.end,
            trong_file: self.trong_file.start..self.trong_file.end,
            ban_do,
        }
    }
}

/// Đổi được vị trí trong đoạn về file mà không tràn số.
pub open spec fn manh_hop_le(m: ManhV) -> bool {
    &&& m.ban_do is None ==> m.file_dau + (m.doan_cuoi - m.doan_dau) <= usize::MAX
    &&& m.ban_do matches Some(bd) ==> forall|q: int| 0 <= q < bd.len() ==> m.file_dau + bd[q] <= usize::MAX
}

/// Vị trí trong đoạn `p` đổi về vị trí byte trong file, nếu `p` nằm trong mảnh.
pub open spec fn ve_file_spec(m: ManhV, p: nat) -> Option<nat> {
    if p < m.doan_dau || p > m.doan_cuoi {
        None
    } else {
        match m.ban_do {
            None => Some((m.file_dau + (p - m.doan_dau)) as nat),
            Some(bd) => if p - m.doan_dau < bd.len() {
                Some((m.file_dau + bd[p - m.doan_dau]) as nat)
            } else {
                None
            },
        }
    }
}

impl Manh {
    /// Đổi một vị trí trong đoạn thành vị trí byte trong file.
    pub fn ve_file(&self, trong_doan: usize) -> (r: Option<usize>)
        requires
            manh_hop_le(self@),
        ensures
            match r {
                Some(v) => ve_file_spec(self@, trong_doan as nat) == Some(v as nat),
                None => ve_file_spec(self@, trong_doan as nat) is None,
            },
    {
        if trong_doan < self.trong_doan.start {
            return None;
        }
        let cuc_bo = trong_doan - self.trong_doan.start;
        if trong_doan > self.trong_doan.end {
            return None;
        }
        match &self.ban_do {
            None => Some(self.trong_file.start + cuc_bo),
            Some(bd) => if cuc_bo < bd.len() {
                Some(self.trong_file.start + bd[cuc_bo] as usize)
            } else {
                None
            },
        }
    }
}

/// Một đoạn ở dạng toán học.
pub struct DoanV {
    pub chu: Seq<char>,
    pub manh: Seq<ManhV>,
}

/// Một khối văn bản đọc liền — thường là một thẻ `<p>`.
#[derive(Debug, Clone)]
pub struct Doan {
    /// Chữ đã giải mã thực thể và nối liền các nút.
    pub chu: String,
    pub manh: Vec<Manh>,
}

impl View for Doan {
    type V = DoanV;

    open spec fn view(&self) -> DoanV {
        DoanV { chu: self.chu@, manh: self.manh@.map_values(|m: Manh| m@) }
    }
}

/// Mảnh đầu tiên chứa trọn khoảng `[a, b)`, tìm từ chỉ số `i`.
pub open spec fn manh_chua(ms: Seq<ManhV>, a: nat, b: nat, i: int) -> Option<int>
    decreases ms.len() - i,
{
    if i < 0 || i >= ms.len() {
        None
    } else if a >= ms[i].doan_dau && b <= ms[i].doan_cuoi {
        Some(i)
    } else {
        manh_chua(ms, a, b, i + 1)
    }
}

/// Khoảng `[a, b)` của đoạn đổi về file, khi nó nằm gọn trong một mảnh.
pub open spec fn doan_ve_file_spec(d: DoanV, a: nat, b: nat) -> Option<(nat, nat)> {
    match manh_chua(d.manh, a, b, 0) {
        Some(i) => match (ve_file_spec(d.manh[i], a), ve_file_spec(d.manh[i], b)) {
            (Some(x), Some(y)) => Some((x, y)),
            _ => None,
        },
        None => None,
    }
}

/// Mọi mảnh của đoạn đều đổi được về file mà không tràn số.
pub open spec fn doan_hop_le(d: DoanV) -> bool {
    forall|i: int| 0 <= i < d.manh.len() ==> manh_hop_le(#[trigger] d.manh[i])
}

/// Các mảnh (theo thứ tự) chồng lên khoảng `[a, b)`.
pub open spec fn manh_phu(ms: Seq<ManhV>, a: nat, b: nat) -> Seq<ManhV> {
    ms.filter(|m: ManhV| m.doan_dau < b && a < m.doan_cuoi)
}

/// Phần file giữa hai mảnh liền nhau chỉ gồm thẻ định dạng (và phần ấy cắt
/// đúng ranh giới ký tự).
pub open spec fn giua_dinh_dang(f: Seq<char>, a: ManhV, b: ManhV) -> bool {
    &&& a.file_cuoi <= b.file_dau <= vstd::utf8::encode_utf8(f).len()
    &&& crate::sua::ranh_gioi(f, a.file_cuoi as int)
    &&& crate::sua::ranh_gioi(f, b.file_dau as int)
    &&& toan_the_tu(crate::sua::doan_byte(f, a.file_cuoi as int, b.file_dau as int), 0)
}

/// Khoảng file ứng với phần giao của `[a, b)` và mảnh `m`.
pub open spec fn khuc_cua(m: ManhV, a: nat, b: nat) -> Option<(nat, nat)> {
    let dau = if a > m.doan_dau { a } else { m.doan_dau };
    let cuoi = if b < m.doan_cuoi { b } else { m.doan_cuoi };
    match (ve_file_spec(m, dau), ve_file_spec(m, cuoi)) {
        (Some(x), Some(y)) => Some((x, y)),
        _ => None,
    }
}

/// Kết quả của [`Doan::ve_file_qua_the`].
pub open spec fn qua_the_spec(d: DoanV, f: Seq<char>, a: nat, b: nat) -> Option<Seq<(nat, nat)>> {
    match doan_ve_file_spec(d, a, b) {
        Some(k) => Some(seq![k]),
        None => {
            let phu = manh_phu(d.manh, a, b);
            if phu.len() < 2 {
                None
            } else if !(forall|q: int| 0 <= q < phu.len() - 1 ==> #[trigger] giua_dinh_dang(f, phu[q], phu[q + 1])) {
                None
            } else if !(forall|q: int| 0 <= q < phu.len() ==> (#[trigger] khuc_cua(phu[q], a, b)) is Some) {
                None
            } else {
                Some(phu.map_values(|m: ManhV| khuc_cua(m, a, b).unwrap()))
            }
        },
    }
}



/// Vị trí byte `[a, b)` cắt đúng ranh giới ký tự của `f` thì cho phần chữ ở giữa
/// (như `str::get`).
fn lay_doan(v: &Vec<char>, b: &Vec<usize>, x: usize, y: usize, Ghost(f): Ghost<Seq<char>>) -> (r: Option<Vec<char>>)
    requires
        v@ == f,
        b@.len() == f.len() + 1,
        forall|k: int| 0 <= k <= f.len() ==> #[trigger] b@[k] == vt_byte(f, k),
    ensures
        match r {
            Some(g) => x <= y <= vstd::utf8::encode_utf8(f).len() && crate::sua::ranh_gioi(f, x as int)
                && crate::sua::ranh_gioi(f, y as int) && g@ == crate::sua::doan_byte(f, x as int, y as int),
            None => !(x <= y <= vstd::utf8::encode_utf8(f).len() && crate::sua::ranh_gioi(f, x as int)
                && crate::sua::ranh_gioi(f, y as int)),
        },
{
    proof {
        assert forall|i: int, j: int| 0 <= i < j < b@.len() implies b@[i] < b@[j] by {
            lemma_vt_byte_tang(f, i, j);
        }
        crate::chuoi::lemma_ranh_gioi(f, x as int);
        crate::chuoi::lemma_ranh_gioi(f, y as int);
        assert(f.take(f.len() as int) =~= f);
    }
    if x > y {
        return None;
    }
    let kx = crate::chuoi::tim_vi_tri(b, x);
    let ky = crate::chuoi::tim_vi_tri(b, y);
    match (kx, ky) {
        (Some(i), Some(j)) => {
            proof {
                crate::sua::lemma_chi_so(f, i as int);
                crate::sua::lemma_chi_so(f, j as int);
                lemma_vt_byte_tang(f, j as int, f.len() as int);
                if j < i {
                    lemma_vt_byte_tang(f, j as int, i as int);
                }
            }
            Some(cat_doan(v, i, j))
        },
        _ => {
            proof {
                if crate::sua::ranh_gioi(f, x as int) {
                    let k = choose|k: int| 0 <= k <= f.len() && #[trigger] vt_byte(f, k) == x;
                    assert(b@[k] == x);
                }
                if crate::sua::ranh_gioi(f, y as int) {
                    let k = choose|k: int| 0 <= k <= f.len() && #[trigger] vt_byte(f, k) == y;
                    assert(b@[k] == y);
                }
            }
            None
        },
    }
}

impl Doan {
    /// Đổi một khoảng trong đoạn thành khoảng byte trong file.
    ///
    /// Trả `None` khi khoảng **vắt qua hai nút**, tức phép sửa đè lên ranh giới
    /// thẻ. Dùng [`Doan::ve_file_qua_the`] để vá được cả ca ấy.
    pub fn ve_file(&self, r: &Range<usize>) -> (kq: Option<Range<usize>>)
        requires
            doan_hop_le(self@),
        ensures
            match kq {
                Some(x) => doan_ve_file_spec(self@, r.start as nat, r.end as nat) == Some((x.start as nat, x.end as nat)),
                None => doan_ve_file_spec(self@, r.start as nat, r.end as nat) is None,
            },
    {
        let ghost ms = self@.manh;
        let mut i: usize = 0;
        while i < self.manh.len()
            invariant
                i <= self.manh.len(),
                ms == self@.manh,
                ms.len() == self.manh@.len(),
                doan_hop_le(self@),
                manh_chua(ms, r.start as nat, r.end as nat, 0) == manh_chua(ms, r.start as nat, r.end as nat, i as int),
            decreases self.manh.len() - i,
        {
            let m = &self.manh[i];
            assert(ms[i as int] == m@);
            if r.start >= m.trong_doan.start && r.end <= m.trong_doan.end {
                proof {
                    assert(manh_hop_le(ms[i as int]));
                }
                let a = m.ve_file(r.start);
                let b = m.ve_file(r.end);
                return match (a, b) {
                    (Some(x), Some(y)) => Some(x..y),
                    _ => None,
                };
            }
            i += 1;
        }
        None
    }

    /// Như [`Doan::ve_file`] nhưng vá được cả chỗ **vắt qua thẻ định dạng**.
    ///
    /// Trả về các khoảng byte mà chỗ sửa phủ lên, theo thứ tự: người gọi ghi toàn
    /// bộ chữ mới vào khoảng **đầu tiên** và xoá rỗng những khoảng sau. Trả `None`
    /// khi giữa hai nút có thứ gì **không phải thẻ định dạng**.
    pub fn ve_file_qua_the(&self, file: &str, r: &Range<usize>) -> (kq: Option<Vec<Range<usize>>>)
        requires
            doan_hop_le(self@),
        ensures
            match kq {
                Some(v) => qua_the_spec(self@, file@, r.start as nat, r.end as nat) == Some(
                    v@.map_values(|x: Range<usize>| (x.start as nat, x.end as nat)),
                ),
                None => qua_the_spec(self@, file@, r.start as nat, r.end as nat) is None,
            },
    {
        let a = r.start;
        let b = r.end;
        if let Some(mot) = self.ve_file(r) {
            let mut v: Vec<Range<usize>> = Vec::new();
            v.push(mot);
            assert(v@.map_values(|x: Range<usize>| (x.start as nat, x.end as nat)) =~= seq![(v@[0].start as nat, v@[0].end as nat)]);
            return Some(v);
        }
        let ghost ms = self@.manh;
        let ghost pred = |m: ManhV| m.doan_dau < b && a < m.doan_cuoi;
        let mut phu: Vec<usize> = Vec::new();
        let mut i: usize = 0;
        while i < self.manh.len()
            invariant
                i <= self.manh.len(),
                ms == self@.manh,
                ms.len() == self.manh@.len(),
                pred == (|m: ManhV| m.doan_dau < b && a < m.doan_cuoi),
                forall|q: int| 0 <= q < phu@.len() ==> (#[trigger] phu@[q]) < self.manh@.len(),
                phu@.map_values(|k: usize| ms[k as int]) == ms.take(i as int).filter(pred),
            decreases self.manh.len() - i,
        {
            let m = &self.manh[i];
            assert(ms[i as int] == m@);
            proof {
                ms.take(i as int).lemma_filter_push(ms[i as int], pred);
                assert(ms.take(i + 1) =~= ms.take(i as int).push(ms[i as int]));
            }
            if m.trong_doan.start < b && a < m.trong_doan.end {
                let ghost truoc = phu@;
                phu.push(i);
                assert(phu@.map_values(|k: usize| ms[k as int]) =~= truoc.map_values(|k: usize| ms[k as int]).push(ms[i as int]));
            }
            i += 1;
        }
        let ghost ps = ms.filter(pred);
        assert(ms.take(ms.len() as int) =~= ms);
        assert(phu@.map_values(|k: usize| ms[k as int]) == ps);
        assert(manh_phu(ms, a as nat, b as nat) == ps);
        if phu.len() < 2 {
            return None;
        }
        let v = ky_tu(file);
        let bv = bang_vi_tri(file);
        let mut q: usize = 0;
        while q + 1 < phu.len()
            invariant
                q + 1 <= phu.len(),
                v@ == file@,
                bv@.len() == file@.len() + 1,
                forall|k: int| 0 <= k <= file@.len() ==> #[trigger] bv@[k] == vt_byte(file@, k),
                forall|t: int| 0 <= t < phu@.len() ==> (#[trigger] phu@[t]) < self.manh@.len(),
                phu@.map_values(|k: usize| ms[k as int]) == ps,
                ms == self@.manh,
                a == r.start,
                b == r.end,
                doan_ve_file_spec(self@, a as nat, b as nat) is None,
                ps == manh_phu(self@.manh, a as nat, b as nat),
                ps.len() == phu@.len(),
                forall|t: int| 0 <= t < q ==> #[trigger] giua_dinh_dang(file@, ps[t], ps[t + 1]),
            decreases phu.len() - q,
        {
            let m1 = &self.manh[phu[q]];
            let m2 = &self.manh[phu[q + 1]];
            assert(ps[q as int] == m1@);
            assert(ps[q + 1] == m2@);
            match lay_doan(&v, &bv, m1.trong_file.end, m2.trong_file.start, Ghost(file@)) {
                Some(giua) => {
                    if !chi_toan_the_dinh_dang(&giua) {
                        assert(!giua_dinh_dang(file@, ps[q as int], ps[q + 1]));
                        return None;
                    }
                },
                None => {
                    assert(!giua_dinh_dang(file@, ps[q as int], ps[q + 1]));
                    return None;
                },
            }
            q += 1;
        }
        let mut ra: Vec<Range<usize>> = Vec::new();
        let mut q: usize = 0;
        while q < phu.len()
            invariant
                q <= phu.len(),
                forall|t: int| 0 <= t < phu@.len() ==> (#[trigger] phu@[t]) < self.manh@.len(),
                phu@.map_values(|k: usize| ms[k as int]) == ps,
                ms == self@.manh,
                doan_hop_le(self@),
                a == r.start,
                b == r.end,
                doan_ve_file_spec(self@, a as nat, b as nat) is None,
                ps == manh_phu(self@.manh, a as nat, b as nat),
                ps.len() == phu@.len(),
                ps.len() >= 2,
                forall|t: int| 0 <= t < ps.len() - 1 ==> #[trigger] giua_dinh_dang(file@, ps[t], ps[t + 1]),
                forall|t: int| 0 <= t < q ==> (#[trigger] khuc_cua(ps[t], a as nat, b as nat)) is Some,
                ra@.map_values(|x: Range<usize>| (x.start as nat, x.end as nat)) == ps.take(q as int).map_values(
                    |m: ManhV| khuc_cua(m, a as nat, b as nat).unwrap(),
                ),
            decreases phu.len() - q,
        {
            let m = &self.manh[phu[q]];
            assert(ps[q as int] == m@);
            proof {
                assert(manh_hop_le(ms[phu@[q as int] as int]));
            }
            let dau = if a > m.trong_doan.start { a } else { m.trong_doan.start };
            let cuoi = if b < m.trong_doan.end { b } else { m.trong_doan.end };
            match (m.ve_file(dau), m.ve_file(cuoi)) {
                (Some(x), Some(y)) => {
                    let ghost truoc = ra@;
                    ra.push(x..y);
                    assert(ps.take(q + 1) =~= ps.take(q as int).push(ps[q as int]));
                    assert(ra@.map_values(|x: Range<usize>| (x.start as nat, x.end as nat)) =~= truoc.map_values(
                        |x: Range<usize>| (x.start as nat, x.end as nat),
                    ).push((x as nat, y as nat)));
                },
                _ => {
                    assert(khuc_cua(ps[q as int], a as nat, b as nat) is None);
                    return None;
                },
            }
            q += 1;
        }
        assert(ps.take(ps.len() as int) =~= ps);
        Some(ra)
    }
}


/// Trạng thái khi quét: các đoạn đã xong, chữ và các mảnh của đoạn đang dựng, và
/// độ sâu đang nằm trong thẻ bỏ qua.
pub struct TrangThaiQuet {
    pub ra: Seq<DoanV>,
    pub chu: Seq<char>,
    pub manh: Seq<ManhV>,
    pub bo_qua: nat,
}

/// Chốt đoạn đang dựng: giữ lại nếu có ít nhất một ký tự không phải khoảng trắng,
/// bỏ đi nếu không.
pub open spec fn ngat_doan(st: TrangThaiQuet) -> TrangThaiQuet {
    if exists|q: int| 0 <= q < st.chu.len() && !la_trang(#[trigger] st.chu[q]) {
        TrangThaiQuet { ra: st.ra.push(DoanV { chu: st.chu, manh: st.manh }), chu: seq![], manh: seq![], ..st }
    } else {
        TrangThaiQuet { chu: seq![], manh: seq![], ..st }
    }
}

/// Vị trí dấu `<` đầu tiên từ `i` trở đi, hoặc cuối chuỗi.
pub open spec fn het_chu(f: Seq<char>, i: int) -> int
    decreases f.len() - i,
{
    if i < 0 || i >= f.len() {
        f.len() as int
    } else if f[i] == '<' {
        i
    } else {
        het_chu(f, i + 1)
    }
}

/// Cuối phần chữ tìm từ `i` nằm trong file và dừng ở `<`.
pub proof fn lemma_het_chu(f: Seq<char>, i: int)
    requires
        0 <= i <= f.len(),
    ensures
        i <= het_chu(f, i) <= f.len(),
        i < f.len() && f[i] != '<' ==> i < het_chu(f, i),
        forall|q: int| i <= q < het_chu(f, i) ==> f[q] != '<',
    decreases f.len() - i,
{
    if i < f.len() && f[i] != '<' {
        lemma_het_chu(f, i + 1);
    }
}

/// Thêm một nút văn bản `f[i..j]` vào đoạn đang dựng (nếu giải mã ra chữ).
pub open spec fn them_manh(st: TrangThaiQuet, f: Seq<char>, i: int, j: int) -> TrangThaiQuet {
    let sub = f.subrange(i, j);
    let g = giai_tu(sub, 0);
    if g.0.len() == 0 {
        st
    } else {
        let ban_do = if sub.contains('&') {
            Some(g.1.push(encode_utf8(sub).len() as u32))
        } else {
            None
        };
        TrangThaiQuet {
            chu: st.chu + g.0,
            manh: st.manh.push(
                ManhV {
                    doan_dau: encode_utf8(st.chu).len(),
                    doan_cuoi: encode_utf8(st.chu + g.0).len(),
                    file_dau: vt_byte(f, i),
                    file_cuoi: vt_byte(f, j),
                    ban_do: ban_do,
                },
            ),
            ..st
        }
    }
}

/// Xử lý một cấu trúc bắt đầu bằng `<` ở vị trí `i`: chú thích, CDATA, chỉ thị
/// xử lý, khai báo, hay thẻ phần tử. Trả trạng thái mới và vị trí đi tiếp.
pub open spec fn buoc_dac_biet(f: Seq<char>, i: int) -> Option<int> {
    if co_tai(f, i, seq!['<', '!', '-', '-']) {
        Some(tim_sau_spec(f, i, seq!['-', '-', '>']))
    } else if co_tai(f, i, seq!['<', '!', '[', 'C', 'D', 'A', 'T', 'A', '[']) {
        Some(tim_sau_spec(f, i, seq![']', ']', '>']))
    } else if co_tai(f, i, seq!['<', '?']) {
        Some(tim_sau_spec(f, i, seq!['?', '>']))
    } else if co_tai(f, i, seq!['<', '!']) {
        Some(tim_sau_spec(f, i, seq!['>']))
    } else {
        None
    }
}

/// Độ sâu trong thẻ bỏ qua sau khi gặp thẻ phần tử `f[i..het]`.
pub open spec fn bo_qua_sau(f: Seq<char>, i: int, het: int, bo_qua: nat) -> nat {
    let (ten, dong) = doc_ten_spec(f.subrange(i, het));
    let tu_dong = het >= 2 && f[het - 2] == '/' && f[het - 1] == '>';
    if the_bo_qua().contains(ten) && !tu_dong {
        if dong {
            if bo_qua > 0 { (bo_qua - 1) as nat } else { 0 }
        } else {
            bo_qua + 1
        }
    } else {
        bo_qua
    }
}

/// Xử lý một cấu trúc bắt đầu bằng `<` ở vị trí `i`: chú thích, CDATA, chỉ thị
/// xử lý, khai báo, hay thẻ phần tử. Trả trạng thái mới và vị trí đi tiếp.
pub open spec fn buoc_the(f: Seq<char>, i: int, st: TrangThaiQuet) -> (TrangThaiQuet, int) {
    match buoc_dac_biet(f, i) {
        Some(k) => (st, k),
        None => {
            let het = het_the_spec(f, i);
            let ten = doc_ten_spec(f.subrange(i, het)).0;
            let st2 = TrangThaiQuet { bo_qua: bo_qua_sau(f, i, het, st.bo_qua), ..st };
            (if the_khoi().contains(ten) { ngat_doan(st2) } else { st2 }, het)
        },
    }
}

fn buoc_dac_biet_exec(f: &[char], i: usize) -> (r: Option<usize>)
    requires
        i <= f.len(),
    ensures
        r is None <==> buoc_dac_biet(f@, i as int) is None,
        r matches Some(k) ==> k <= f.len() && buoc_dac_biet(f@, i as int) == Some(k as int),
{
    let a = vec!['<', '!', '-', '-'];
    let b = vec!['<', '!', '[', 'C', 'D', 'A', 'T', 'A', '['];
    let c = vec!['<', '?'];
    let d = vec!['<', '!'];
    let a2 = vec!['-', '-', '>'];
    let b2 = vec![']', ']', '>'];
    let c2 = vec!['?', '>'];
    let d2 = vec!['>'];
    assert(a@ =~= seq!['<', '!', '-', '-']);
    assert(b@ =~= seq!['<', '!', '[', 'C', 'D', 'A', 'T', 'A', '[']);
    assert(c@ =~= seq!['<', '?']);
    assert(d@ =~= seq!['<', '!']);
    assert(a2@ =~= seq!['-', '-', '>']);
    assert(b2@ =~= seq![']', ']', '>']);
    assert(c2@ =~= seq!['?', '>']);
    assert(d2@ =~= seq!['>']);
    if co_tai_exec(f, i, a.as_slice()) {
        Some(tim_sau(f, i, a2.as_slice()))
    } else if co_tai_exec(f, i, b.as_slice()) {
        Some(tim_sau(f, i, b2.as_slice()))
    } else if co_tai_exec(f, i, c.as_slice()) {
        Some(tim_sau(f, i, c2.as_slice()))
    } else if co_tai_exec(f, i, d.as_slice()) {
        Some(tim_sau(f, i, d2.as_slice()))
    } else {
        None
    }
}

/// Quét tiếp từ vị trí `i` với trạng thái `st`, trả các đoạn thu được.
pub open spec fn quet_tu(f: Seq<char>, i: int, st: TrangThaiQuet) -> Seq<DoanV>
    decreases f.len() - i,
{
    if i < 0 || i >= f.len() {
        ngat_doan(st).ra
    } else if f[i] != '<' {
        let j = het_chu(f, i);
        proof {
            lemma_het_chu(f, i);
        }
        quet_tu(f, j, if st.bo_qua == 0 { them_manh(st, f, i, j) } else { st })
    } else {
        let (st2, k) = buoc_the(f, i, st);
        proof {
            lemma_buoc_the(f, i, st);
        }
        quet_tu(f, k, st2)
    }
}

/// Mỗi bước đọc một thẻ tiến lên ít nhất một ký tự và không vượt cuối file.
pub proof fn lemma_buoc_the(f: Seq<char>, i: int, st: TrangThaiQuet)
    requires
        0 <= i < f.len(),
    ensures
        i < buoc_the(f, i, st).1 <= f.len(),
{
    lemma_tim_sau(f, i, seq!['-', '-', '>']);
    lemma_tim_sau(f, i, seq![']', ']', '>']);
    lemma_tim_sau(f, i, seq!['?', '>']);
    lemma_tim_sau(f, i, seq!['>']);
    lemma_het_the(f, i + 1, '\0');
}

/// Các đoạn quét được từ cả file.
pub open spec fn quet_spec(f: Seq<char>) -> Seq<DoanV> {
    quet_tu(f, 0, TrangThaiQuet { ra: seq![], chu: seq![], manh: seq![], bo_qua: 0 })
}

/// Mọi mảnh đang dựng và mọi đoạn đã chốt đều đổi được về file mà không tràn số.
pub open spec fn tt_hop_le(st: TrangThaiQuet) -> bool {
    &&& forall|q: int| 0 <= q < st.manh.len() ==> manh_hop_le(#[trigger] st.manh[q])
    &&& forall|q: int| 0 <= q < st.ra.len() ==> doan_hop_le(#[trigger] st.ra[q])
}

proof fn lemma_ngat_doan_hop_le(st: TrangThaiQuet)
    requires
        tt_hop_le(st),
    ensures
        tt_hop_le(ngat_doan(st)),
{
    let r = ngat_doan(st);
    assert forall|q: int| 0 <= q < r.ra.len() implies doan_hop_le(#[trigger] r.ra[q]) by {
        if q < st.ra.len() {
            assert(r.ra[q] == st.ra[q]);
        } else {
            assert(r.ra[q].manh == st.manh);
        }
    }
}

proof fn lemma_them_manh_hop_le(st: TrangThaiQuet, f: Seq<char>, i: int, j: int)
    requires
        tt_hop_le(st),
        0 <= i <= j <= f.len(),
        encode_utf8(f).len() <= u32::MAX,
    ensures
        tt_hop_le(them_manh(st, f, i, j)),
{
    let sub = f.subrange(i, j);
    let g = giai_tu(sub, 0);
    if g.0.len() != 0 {
        let r = them_manh(st, f, i, j);
        let m = r.manh.last();
        crate::chuoi::lemma_vt_byte_tang(f, j, f.len() as int);
        assert(f.take(j) =~= f.take(i) + sub);
        crate::chuoi::lemma_ma_noi(f.take(i), sub);
        assert(vt_byte(f, j) == vt_byte(f, i) + encode_utf8(sub).len());
        crate::chuoi::lemma_ma_noi(st.chu, g.0);
        if sub.contains('&') {
            crate::thuc_the::lemma_ban_do(sub, 0);
            assert(vt_byte(sub, 0) == 0) by {
                assert(sub.take(0) =~= Seq::<char>::empty());
            }
            let bd = g.1.push(encode_utf8(sub).len() as u32);
            assert forall|q: int| 0 <= q < bd.len() implies m.file_dau + bd[q] <= usize::MAX by {
                if q < g.1.len() {
                    assert(bd[q] == g.1[q]);
                }
            }
        } else {
            crate::thuc_the::lemma_khong_va(sub, 0);
            assert(sub.skip(0) =~= sub);
        }
        assert(manh_hop_le(m));
        assert forall|q: int| 0 <= q < r.manh.len() implies manh_hop_le(#[trigger] r.manh[q]) by {
            if q < st.manh.len() {
                assert(r.manh[q] == st.manh[q]);
            }
        }
    }
}

proof fn lemma_quet_tu_hop_le(f: Seq<char>, i: int, st: TrangThaiQuet)
    requires
        tt_hop_le(st),
        encode_utf8(f).len() <= u32::MAX,
        0 <= i,
    ensures
        forall|q: int| 0 <= q < quet_tu(f, i, st).len() ==> doan_hop_le(#[trigger] quet_tu(f, i, st)[q]),
    decreases f.len() - i,
{
    if i >= f.len() {
        lemma_ngat_doan_hop_le(st);
        assert(quet_tu(f, i, st) == ngat_doan(st).ra);
    } else if f[i] != '<' {
        let j = het_chu(f, i);
        lemma_het_chu(f, i);
        if st.bo_qua == 0 {
            lemma_them_manh_hop_le(st, f, i, j);
        }
        let sn = if st.bo_qua == 0 { them_manh(st, f, i, j) } else { st };
        lemma_quet_tu_hop_le(f, j, sn);
        assert(quet_tu(f, i, st) == quet_tu(f, j, sn));
    } else {
        let (st2, k) = buoc_the(f, i, st);
        lemma_buoc_the(f, i, st);
        let st1 = TrangThaiQuet { bo_qua: bo_qua_sau(f, i, het_the_spec(f, i), st.bo_qua), ..st };
        assert(tt_hop_le(st1));
        lemma_ngat_doan_hop_le(st1);
        lemma_quet_tu_hop_le(f, k, st2);
        assert(quet_tu(f, i, st) == quet_tu(f, k, st2));
    }
}

/// Các đoạn quét từ một file không quá 4 GiB đều đổi được về file mà không tràn số.
pub proof fn lemma_quet_hop_le(f: Seq<char>)
    requires
        encode_utf8(f).len() <= u32::MAX,
    ensures
        forall|q: int| 0 <= q < quet_spec(f).len() ==> doan_hop_le(#[trigger] quet_spec(f)[q]),
{
    lemma_quet_tu_hop_le(f, 0, TrangThaiQuet { ra: seq![], chu: seq![], manh: seq![], bo_qua: 0 });
}


/// Mảnh `m` của đoạn có chữ `chu` lấy từ nút văn bản `f[a..b]` của file: nút
/// không chứa `<`, hai đầu ứng với vị trí byte của mảnh, và giải mã thực thể
/// ra đúng phần `chu[c..e]` của đoạn (cũng khớp vị trí byte của mảnh).
pub open spec fn manh_lay_tu(f: Seq<char>, chu: Seq<char>, m: ManhV, a: int, b: int, c: int, e: int) -> bool {
    &&& 0 <= a < b <= f.len()
    &&& m.file_dau == vt_byte(f, a)
    &&& m.file_cuoi == vt_byte(f, b)
    &&& (forall|q: int| a <= q < b ==> f[q] != '<')
    &&& 0 <= c < e <= chu.len()
    &&& m.doan_dau == vt_byte(chu, c)
    &&& m.doan_cuoi == vt_byte(chu, e)
    &&& giai_tu(f.subrange(a, b), 0).0 == chu.subrange(c, e)
}

/// Mảnh `m` lấy từ một nút văn bản nào đó của file `f` (xem [`manh_lay_tu`]).
pub open spec fn manh_khop(f: Seq<char>, chu: Seq<char>, m: ManhV) -> bool {
    exists|a: int, b: int, c: int, e: int| #[trigger] manh_lay_tu(f, chu, m, a, b, c, e)
}

/// Các mảnh của đoạn `d` nối liền nhau phủ trọn chữ của đoạn, mỗi mảnh lấy từ
/// một nút văn bản của `f`, và các nút nằm trong file theo đúng thứ tự.
pub open spec fn doan_khop(f: Seq<char>, d: DoanV) -> bool {
    &&& d.manh.len() > 0
    &&& d.manh[0].doan_dau == 0
    &&& d.manh.last().doan_cuoi == encode_utf8(d.chu).len()
    &&& forall|k: int| 0 <= k < d.manh.len() ==> manh_khop(f, d.chu, #[trigger] d.manh[k])
    &&& forall|k: int|
        0 <= k < d.manh.len() - 1 ==> (#[trigger] d.manh[k]).doan_cuoi == d.manh[k + 1].doan_dau && d.manh[k].file_cuoi
            <= d.manh[k + 1].file_dau
}

/// Trạng thái quét tới vị trí `i`: các đoạn đã chốt đều khớp file, đoạn đang
/// dựng khớp tới đây, và mảnh cuối nằm trước vị trí `i`.
spec fn dang_khop(f: Seq<char>, st: TrangThaiQuet, i: int) -> bool {
    &&& 0 <= i <= f.len()
    &&& forall|q: int| 0 <= q < st.ra.len() ==> doan_khop(f, #[trigger] st.ra[q])
    &&& (st.manh.len() == 0 <==> st.chu.len() == 0)
    &&& st.manh.len() > 0 ==> st.manh[0].doan_dau == 0 && st.manh.last().doan_cuoi == encode_utf8(st.chu).len()
        && st.manh.last().file_cuoi <= vt_byte(f, i)
    &&& forall|k: int| 0 <= k < st.manh.len() ==> manh_khop(f, st.chu, #[trigger] st.manh[k])
    &&& forall|k: int|
        0 <= k < st.manh.len() - 1 ==> (#[trigger] st.manh[k]).doan_cuoi == st.manh[k + 1].doan_dau && st.manh[k].file_cuoi
            <= st.manh[k + 1].file_dau
}

proof fn lemma_ngat_doan_khop(f: Seq<char>, st: TrangThaiQuet, i: int)
    requires
        dang_khop(f, st, i),
    ensures
        dang_khop(f, ngat_doan(st), i),
{
    let r = ngat_doan(st);
    if exists|q: int| 0 <= q < st.chu.len() && !la_trang(#[trigger] st.chu[q]) {
        assert forall|q: int| 0 <= q < r.ra.len() implies doan_khop(f, #[trigger] r.ra[q]) by {
            if q < st.ra.len() {
                assert(r.ra[q] == st.ra[q]);
            } else {
                assert(r.ra[q] == DoanV { chu: st.chu, manh: st.manh });
            }
        }
    }
}

proof fn lemma_khop_noi(f: Seq<char>, chu: Seq<char>, g: Seq<char>, m: ManhV)
    requires
        manh_khop(f, chu, m),
    ensures
        manh_khop(f, chu + g, m),
{
    let (a, b, c, e) = choose|a: int, b: int, c: int, e: int| #[trigger] manh_lay_tu(f, chu, m, a, b, c, e);
    let n = chu + g;
    assert(n.take(c) =~= chu.take(c));
    assert(n.take(e) =~= chu.take(e));
    assert(n.subrange(c, e) =~= chu.subrange(c, e));
    assert(manh_lay_tu(f, n, m, a, b, c, e));
}

proof fn lemma_them_manh_khop(f: Seq<char>, st: TrangThaiQuet, i: int, j: int)
    requires
        dang_khop(f, st, i),
        0 <= i < j <= f.len(),
        forall|q: int| i <= q < j ==> f[q] != '<',
    ensures
        dang_khop(f, them_manh(st, f, i, j), j),
{
    crate::chuoi::lemma_vt_byte_tang(f, i, j);
    let sub = f.subrange(i, j);
    let g = giai_tu(sub, 0);
    if g.0.len() != 0 {
        let r = them_manh(st, f, i, j);
        let n = st.chu + g.0;
        let m = r.manh.last();
        assert(n.take(st.chu.len() as int) =~= st.chu);
        assert(n.take(n.len() as int) =~= n);
        assert(n.subrange(st.chu.len() as int, n.len() as int) =~= g.0);
        assert(manh_lay_tu(f, n, m, i, j, st.chu.len() as int, n.len() as int));
        assert forall|k: int| 0 <= k < r.manh.len() implies manh_khop(f, n, #[trigger] r.manh[k]) by {
            if k < st.manh.len() {
                assert(r.manh[k] == st.manh[k]);
                lemma_khop_noi(f, st.chu, g.0, st.manh[k]);
            }
        }
        if st.manh.len() == 0 {
            assert(encode_utf8(st.chu) =~= Seq::<u8>::empty());
        }
        assert forall|k: int| 0 <= k < r.manh.len() - 1 implies (#[trigger] r.manh[k]).doan_cuoi == r.manh[k + 1].doan_dau
            && r.manh[k].file_cuoi <= r.manh[k + 1].file_dau by {
            assert(r.manh[k] == st.manh[k]);
            if k + 1 < st.manh.len() {
                assert(r.manh[k + 1] == st.manh[k + 1]);
            }
        }
    }
}

proof fn lemma_quet_tu_khop(f: Seq<char>, i: int, st: TrangThaiQuet)
    requires
        dang_khop(f, st, i),
    ensures
        forall|q: int| 0 <= q < quet_tu(f, i, st).len() ==> doan_khop(f, #[trigger] quet_tu(f, i, st)[q]),
    decreases f.len() - i,
{
    if i >= f.len() {
        lemma_ngat_doan_khop(f, st, i);
    } else if f[i] != '<' {
        let j = het_chu(f, i);
        lemma_het_chu(f, i);
        crate::chuoi::lemma_vt_byte_tang(f, i, j);
        if st.bo_qua == 0 {
            lemma_them_manh_khop(f, st, i, j);
        }
        let sn = if st.bo_qua == 0 { them_manh(st, f, i, j) } else { st };
        lemma_quet_tu_khop(f, j, sn);
        assert(quet_tu(f, i, st) == quet_tu(f, j, sn));
    } else {
        let (st2, k) = buoc_the(f, i, st);
        lemma_buoc_the(f, i, st);
        crate::chuoi::lemma_vt_byte_tang(f, i, k);
        let st1 = TrangThaiQuet { bo_qua: bo_qua_sau(f, i, het_the_spec(f, i), st.bo_qua), ..st };
        assert(dang_khop(f, st1, k));
        lemma_ngat_doan_khop(f, st1, k);
        assert(dang_khop(f, st, k));
        lemma_quet_tu_khop(f, k, st2);
        assert(quet_tu(f, i, st) == quet_tu(f, k, st2));
    }
}

/// Mỗi đoạn quét được từ file `f` dựng đúng từ các nút văn bản của file: các
/// mảnh nối liền nhau phủ trọn chữ của đoạn, mỗi mảnh ứng với một khoảng khác
/// rỗng của file không chứa `<` và giải mã ra đúng phần chữ của mảnh, và các
/// khoảng ấy nằm theo thứ tự tăng dần trong file.
pub proof fn lemma_quet_khop(f: Seq<char>)
    ensures
        forall|q: int| 0 <= q < quet_spec(f).len() ==> doan_khop(f, #[trigger] quet_spec(f)[q]),
{
    let st = TrangThaiQuet { ra: seq![], chu: seq![], manh: seq![], bo_qua: 0 };
    lemma_quet_tu_khop(f, 0, st);
}


/// Tên của bốn thẻ mà nội dung không được soát: `script`, `style`, `code`, `pre`.
pub open spec fn ten_the_bo_qua(n: Seq<char>) -> bool {
    n == seq!['s', 'c', 'r', 'i', 'p', 't'] || n == seq!['s', 't', 'y', 'l', 'e'] || n == seq!['c', 'o', 'd', 'e']
        || n == seq!['p', 'r', 'e']
}

/// Dãy khác rỗng toàn chữ cái ASCII thường.
spec fn chu_thuong_ascii(n: Seq<char>) -> bool {
    n.len() > 0 && forall|q: int| 0 <= q < n.len() ==> 'a' <= #[trigger] n[q] && n[q] <= 'z'
}

proof fn lemma_lay_ten_thuong(n: Seq<char>)
    requires
        forall|q: int| 0 <= q < n.len() ==> 'a' <= #[trigger] n[q] && n[q] <= 'z',
    ensures
        lay_ten(n) == n,
        sau_hai_cham(n) == n,
        n.map_values(|c: char| thuong_ascii(c)) == n,
    decreases n.len(),
{
    if n.len() > 0 {
        assert(n[0] == n[0]);
        lemma_lay_ten_thuong(n.drop_first());
        assert(seq![n[0]] + n.drop_first() =~= n);
        lemma_lay_ten_thuong(n.drop_last());
        assert(n.drop_last().push(n.last()) =~= n);
        assert(n.map_values(|c: char| thuong_ascii(c)) =~= n);
    }
}

proof fn lemma_het_the_thang(f: Seq<char>, j: int, e: int)
    requires
        0 <= j <= e < f.len(),
        f[e] == '>',
        forall|q: int| j <= q < e ==> #[trigger] f[q] != '"' && f[q] != '\'' && f[q] != '>',
    ensures
        het_the_tu(f, j, '\0') == e + 1,
    decreases e - j,
{
    if j < e {
        lemma_het_the_thang(f, j + 1, e);
    }
}

proof fn lemma_ten_the_bo_qua(n: Seq<char>)
    requires
        ten_the_bo_qua(n),
    ensures
        chu_thuong_ascii(n),
        the_bo_qua().contains(n),
        !the_khoi().contains(n),
{
    let k = the_khoi();
    if n == seq!['s', 'c', 'r', 'i', 'p', 't'] {
        assert(the_bo_qua()[0] == n);
    } else if n == seq!['s', 't', 'y', 'l', 'e'] {
        assert(the_bo_qua()[1] == n);
    } else if n == seq!['c', 'o', 'd', 'e'] {
        assert(the_bo_qua()[2] == n);
    } else {
        assert(the_bo_qua()[3] == n);
    }
    assert forall|j: int| 0 <= j < k.len() implies k[j] != n by {
        if k[j] == n {
            assert(k[j][0] == n[0] && k[j].len() == n.len());
            if n.len() >= 2 {
                assert(k[j][1] == n[1]);
            }
            if n.len() >= 3 {
                assert(k[j][2] == n[2]);
            }
        }
    }
}

/// Nội dung thẻ `script`, `style`, `code`, `pre` không được soát: với mọi file,
/// mọi vị trí có thẻ mở `<tên>` của một trong bốn thẻ ấy và mọi trạng thái quét,
/// quét từ đó cho đúng những đoạn như khi bỏ hẳn phần chữ ngay sau thẻ (tới dấu
/// `<` kế tiếp) và tăng độ sâu bỏ qua thêm một: không ký tự nào của phần ấy vào
/// đoạn nào (`<code>giữ nguyên</code>chữ tự do` chỉ cho `chữ tự do`).
pub proof fn lemma_bo_qua_noi_dung(f: Seq<char>, i: int, st: TrangThaiQuet, n: Seq<char>)
    requires
        ten_the_bo_qua(n),
        0 <= i,
        i + n.len() + 2 <= f.len(),
        f.subrange(i, i + n.len() + 2) == seq!['<'] + n + seq!['>'],
    ensures
        quet_tu(f, i, st) == quet_tu(
            f,
            het_chu(f, i + n.len() + 2),
            TrangThaiQuet { bo_qua: st.bo_qua + 1, ..st },
        ),
{
    lemma_ten_the_bo_qua(n);
    let l = n.len() as int;
    let e = i + l + 1;
    let t = f.subrange(i, e + 1);
    assert(forall|q: int| 0 <= q < l ==> #[trigger] f[i + 1 + q] == n[q]) by {
        assert forall|q: int| 0 <= q < l implies #[trigger] f[i + 1 + q] == n[q] by {
            assert(t[1 + q] == f[i + 1 + q]);
            assert((seq!['<'] + n + seq!['>'])[1 + q] == n[q]);
        }
    }
    assert(f[i] == t[0]);
    assert(f[e] == t[l + 1]);
    assert(f[i] == '<' && f[e] == '>');
    assert forall|q: int| i + 1 <= q < e implies #[trigger] f[q] != '"' && f[q] != '\'' && f[q] != '>' by {
        assert(f[i + 1 + (q - i - 1)] == n[q - i - 1]);
    }
    lemma_het_the_thang(f, i + 1, e);
    assert(het_the_spec(f, i) == e + 1);
    assert(t[1] == f[i + 1]);
    assert((seq!['<'] + n + seq!['>'])[1] == n[0]);
    assert(f[i + 1] == n[0]);
    assert(!co_tai(f, i, seq!['<', '!', '-', '-'])) by {
        if co_tai(f, i, seq!['<', '!', '-', '-']) {
            assert(f.subrange(i, i + 4)[1] == f[i + 1]);
        }
    }
    assert(!co_tai(f, i, seq!['<', '!', '[', 'C', 'D', 'A', 'T', 'A', '['])) by {
        if co_tai(f, i, seq!['<', '!', '[', 'C', 'D', 'A', 'T', 'A', '[']) {
            assert(f.subrange(i, i + 9)[1] == f[i + 1]);
        }
    }
    assert(!co_tai(f, i, seq!['<', '?'])) by {
        if co_tai(f, i, seq!['<', '?']) {
            assert(f.subrange(i, i + 2)[1] == f[i + 1]);
        }
    }
    assert(!co_tai(f, i, seq!['<', '!'])) by {
        if co_tai(f, i, seq!['<', '!']) {
            assert(f.subrange(i, i + 2)[1] == f[i + 1]);
        }
    }
    assert(buoc_dac_biet(f, i) is None);
    // Tên thẻ đọc ra đúng `n`, thẻ mở, không tự đóng.
    let sau_mo = n + seq!['>'];
    assert(t == seq!['<'] + n + seq!['>']);
    assert(t.drop_first() =~= sau_mo);
    assert(sau_mo[0] == n[0]);
    assert(bo_mo(sau_mo) == sau_mo);
    assert(bo_mo(t) == sau_mo);
    assert(sau_mo.drop_last() =~= n);
    assert(n.last() == n[l - 1]);
    assert(bo_dong(n) == n);
    assert(bo_dong(sau_mo) == n);
    lemma_lay_ten_thuong(n);
    assert(doc_ten_spec(t) == (n, false));
    assert(t[l] == f[e - 1]);
    assert((seq!['<'] + n + seq!['>'])[l] == n[l - 1]);
    assert(f[e - 1] == n[l - 1]);
    assert(bo_qua_sau(f, i, e + 1, st.bo_qua) == st.bo_qua + 1);
    let st2 = TrangThaiQuet { bo_qua: st.bo_qua + 1, ..st };
    assert(buoc_the(f, i, st) == (st2, e + 1));
    lemma_buoc_the(f, i, st);
    assert(quet_tu(f, i, st) == quet_tu(f, e + 1, st2));
    if e + 1 < f.len() && f[e + 1] != '<' {
        lemma_het_chu(f, e + 1);
        assert(quet_tu(f, e + 1, st2) == quet_tu(f, het_chu(f, e + 1), st2));
    }
}

/// Dãy các đoạn ở dạng toán học.
pub open spec fn dsd(v: Seq<Doan>) -> Seq<DoanV> {
    v.map_values(|d: Doan| d@)
}

/// Dãy các mảnh ở dạng toán học.
pub open spec fn dsm(v: Seq<Manh>) -> Seq<ManhV> {
    v.map_values(|m: Manh| m@)
}

fn co_chu_khong_trang(chu: &Vec<char>) -> (r: bool)
    ensures
        r == (exists|q: int| 0 <= q < chu@.len() && !la_trang(#[trigger] chu@[q])),
{
    let mut i: usize = 0;
    while i < chu.len()
        invariant
            i <= chu.len(),
            forall|q: int| 0 <= q < i ==> la_trang(#[trigger] chu@[q]),
        decreases chu.len() - i,
    {
        if !trang(chu[i]) {
            return true;
        }
        i += 1;
    }
    false
}

fn ngat_doan_exec(ra: &mut Vec<Doan>, chu: &mut Vec<char>, chu_b: &mut usize, manh: &mut Vec<Manh>, bo_qua: usize)
    requires
        *old(chu_b) == encode_utf8(old(chu)@).len(),
    ensures
        *final(chu_b) == encode_utf8(final(chu)@).len(),
        ngat_doan((TrangThaiQuet { ra: dsd(old(ra)@), chu: old(chu)@, manh: dsm(old(manh)@), bo_qua: bo_qua as nat }))
            == (TrangThaiQuet { ra: dsd(final(ra)@), chu: final(chu)@, manh: dsm(final(manh)@), bo_qua: bo_qua as nat }),
{
    if co_chu_khong_trang(chu) {
        let mut m: Vec<Manh> = Vec::new();
        std::mem::swap(&mut m, manh);
        let ghost truoc = dsd(ra@);
        let d = Doan { chu: chuoi(chu), manh: m };
        ra.push(d);
        assert(dsd(ra@) =~= truoc.push(DoanV { chu: old(chu)@, manh: dsm(old(manh)@) }));
    }
    *chu = Vec::new();
    *manh = Vec::new();
    *chu_b = 0;
    proof {
        assert(dsm(manh@) =~= Seq::<ManhV>::empty());
        assert(encode_utf8(Seq::<char>::empty()) =~= Seq::<u8>::empty());
    }
}

/// Quét toàn bộ file, trả về các đoạn.
///
/// Nút văn bản (đã giải mã thực thể) nối vào đoạn đang dựng, trừ khi đang nằm
/// trong `script`, `style`, `code`, `pre`. Chú thích, CDATA, chỉ thị xử lý và
/// khai báo bị bỏ qua. Thẻ khối (`p`, `div`, `br`, `h1`…, cả `head`, `title`)
/// ngắt đoạn; đoạn chỉ toàn khoảng trắng thì bỏ.
pub fn quet(file: &str) -> (r: Vec<Doan>)
    ensures
        dsd(r@) == quet_spec(file@),
        encode_utf8(file@).len() <= u32::MAX ==> forall|q: int| 0 <= q < r@.len() ==> doan_hop_le(#[trigger] r@[q]@),
        forall|q: int| 0 <= q < r@.len() ==> doan_khop(file@, #[trigger] r@[q]@),
{
    let f = ky_tu(file);
    let fb = bang_vi_tri(file);
    let ds_bo_qua = bang_the_bo_qua();
    let ds_khoi = bang_the_khoi();
    let mut ra: Vec<Doan> = Vec::new();
    let mut chu: Vec<char> = Vec::new();
    let mut chu_b: usize = 0;
    let mut manh: Vec<Manh> = Vec::new();
    let mut bo_qua: usize = 0;
    let mut i: usize = 0;
    proof {
        assert(dsd(ra@) =~= Seq::<DoanV>::empty());
        assert(dsm(manh@) =~= Seq::<ManhV>::empty());
        assert(encode_utf8(Seq::<char>::empty()) =~= Seq::<u8>::empty());
        assert(vt_byte(file@, 0) == 0) by {
            assert(file@.take(0) =~= Seq::<char>::empty());
        }
        assert(fb@[file@.len() as int] == vt_byte(file@, file@.len() as int));
    }
    while i < f.len()
        invariant
            f@ == file@,
            fb@.len() == file@.len() + 1,
            forall|k: int| 0 <= k <= file@.len() ==> #[trigger] fb@[k] == vt_byte(file@, k),
            vt_byte(file@, file@.len() as int) <= usize::MAX,
            crate::ung_vien::dv(ds_bo_qua@) == the_bo_qua(),
            crate::ung_vien::dv(ds_khoi@) == the_khoi(),
            i <= f.len(),
            bo_qua <= i,
            chu_b == encode_utf8(chu@).len(),
            chu_b <= vt_byte(file@, i as int),
            quet_spec(file@) == quet_tu(
                file@,
                i as int,
                (TrangThaiQuet { ra: dsd(ra@), chu: chu@, manh: dsm(manh@), bo_qua: bo_qua as nat }),
            ),
        decreases f.len() - i,
    {
        let ghost st = TrangThaiQuet { ra: dsd(ra@), chu: chu@, manh: dsm(manh@), bo_qua: bo_qua as nat };
        proof {
            lemma_vt_byte_tang(file@, i as int, file@.len() as int);
        }
        if f[i] != '<' {
            let dau = i;
            while i < f.len() && f[i] != '<'
                invariant
                    dau <= i <= f.len(),
                    f@ == file@,
                    het_chu(file@, dau as int) == het_chu(file@, i as int),
                decreases f.len() - i,
            {
                i += 1;
            }
            proof {
                lemma_het_chu(file@, dau as int);
                lemma_vt_byte_tang(file@, dau as int, i as int);
                lemma_vt_byte_tang(file@, i as int, file@.len() as int);
            }
            if bo_qua == 0 {
                let sub = cat_doan(&f, dau, i);
                let sub_s = chuoi(&sub);
                let (giai, ban_do) = crate::thuc_the::giai_ma_co_ban_do(sub_s.as_str());
                let gv = ky_tu(giai.as_str());
                proof {
                    crate::thuc_the::lemma_giai_ngan(sub@, 0);
                    assert(sub@.take(0) =~= Seq::<char>::empty());
                    assert(sub@.take(sub@.len() as int) =~= sub@);
                    assert(file@.take(i as int) =~= file@.take(dau as int) + sub@);
                    crate::chuoi::lemma_ma_noi(file@.take(dau as int), sub@);
                }
                if gv.len() > 0 {
                    let d = chu_b;
                    let gb = giai.as_str().as_bytes().len();
                    let ghost chu_cu = chu@;
                    chu = noi(&chu, &gv);
                    proof {
                        crate::chuoi::lemma_ma_noi(chu_cu, gv@);
                    }
                    chu_b = chu_b + gb;
                    let ghost truoc = dsm(manh@);
                    let m = Manh { trong_doan: d..chu_b, trong_file: fb[dau]..fb[i], ban_do };
                    manh.push(m);
                    assert(dsm(manh@) =~= truoc.push(m@));
                }
            }
        } else {
            let het: usize;
            match buoc_dac_biet_exec(&f, i) {
                Some(k) => {
                    het = k;
                },
                None => {
                    het = het_the(&f, i);
                    let the = cat_doan(&f, i, het);
                    let (ten, dong) = doc_ten(&the);
                    let tu_dong = het >= 2 && f[het - 2] == '/' && f[het - 1] == '>';
                    if co_trong(&ten, &ds_bo_qua) && !tu_dong {
                        if dong {
                            bo_qua = if bo_qua > 0 { bo_qua - 1 } else { 0 };
                        } else {
                            bo_qua = bo_qua + 1;
                        }
                    }
                    assert(bo_qua as nat == bo_qua_sau(file@, i as int, het as int, st.bo_qua));
                    if co_trong(&ten, &ds_khoi) {
                        ngat_doan_exec(&mut ra, &mut chu, &mut chu_b, &mut manh, bo_qua);
                    }
                },
            }
            proof {
                lemma_buoc_the(file@, i as int, st);
                lemma_vt_byte_tang(file@, i as int, het as int);
            }
            assert(het as int == buoc_the(file@, i as int, st).1);
            assert(quet_tu(file@, i as int, st) == quet_tu(file@, het as int, buoc_the(file@, i as int, st).0));
            i = het;
        }
    }
    ngat_doan_exec(&mut ra, &mut chu, &mut chu_b, &mut manh, bo_qua);
    proof {
        if encode_utf8(file@).len() <= u32::MAX {
            lemma_quet_hop_le(file@);
            assert forall|q: int| 0 <= q < ra@.len() implies doan_hop_le(#[trigger] ra@[q]@) by {
                assert(dsd(ra@)[q] == ra@[q]@);
            }
        }
        lemma_quet_khop(file@);
        assert forall|q: int| 0 <= q < ra@.len() implies doan_khop(file@, #[trigger] ra@[q]@) by {
            assert(dsd(ra@)[q] == ra@[q]@);
        }
    }
    ra
}


impl Manh {
    /// Mọi vị trí của mảnh đổi về file đều nằm trong `usize`.
    pub fn hop_le(&self) -> (r: bool)
        ensures
            r == manh_hop_le(self@),
    {
        match &self.ban_do {
            None => {
                if self.trong_doan.end < self.trong_doan.start {
                    return true;
                }
                let dai = self.trong_doan.end - self.trong_doan.start;
                self.trong_file.start <= usize::MAX - dai
            },
            Some(bd) => {
                let mut i: usize = 0;
                while i < bd.len()
                    invariant
                        i <= bd@.len(),
                        self.ban_do == Some(*bd),
                        forall|q: int| 0 <= q < i ==> self.trong_file.start + bd@[q] <= usize::MAX,
                    decreases bd.len() - i,
                {
                    if self.trong_file.start as u128 + bd[i] as u128 > usize::MAX as u128 {
                        assert(self.ban_do == Some(*bd));
                        assert(self@.ban_do == Some(bd@));
                        assert(!(self@.file_dau + bd@[i as int] <= usize::MAX));
                        assert(!manh_hop_le(self@)) by {
                            let v = self@;
                            assert(v.ban_do matches Some(b) && b == bd@);
                            assert(!(v.file_dau + bd@[i as int] <= usize::MAX));
                        }
                        return false;
                    }
                    i += 1;
                }
                true
            },
        }
    }
}

impl Doan {
    /// Mọi mảnh của đoạn đều hợp lệ (xem [`Manh::hop_le`]).
    pub fn hop_le(&self) -> (r: bool)
        ensures
            r == doan_hop_le(self@),
    {
        let mut i: usize = 0;
        while i < self.manh.len()
            invariant
                i <= self.manh@.len(),
                forall|q: int| 0 <= q < i ==> manh_hop_le(#[trigger] self@.manh[q]),
            decreases self.manh.len() - i,
        {
            assert(self@.manh[i as int] == self.manh@[i as int]@);
            if !self.manh[i].hop_le() {
                return false;
            }
            i += 1;
        }
        true
    }
}

} // verus!
