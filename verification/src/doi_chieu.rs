//! Đối chiếu đoạn trước và sau khi sửa, ra danh sách khoảng byte cần vá.
//!
//! Các tầng sửa chạy nối tiếp nhau, nên vị trí byte trong phép sửa của tầng sau
//! nói về một chuỗi không còn tồn tại. So thẳng hai đầu thì không có gì để quên.
//!
//! Đơn vị đối chiếu là "mảnh" — một cụm khoảng trắng liền hoặc một cụm không phải
//! khoảng trắng liền — đủ mịn để mỗi lỗi ra một khoảng vá riêng.
use vstd::prelude::*;
use std::ops::Range;
use crate::chuoi::{bang_nhau, bang_vi_tri, cat_doan, chuoi, ky_tu, lemma_vt_byte_tang, noi, vt_byte};
use crate::hoa_thuong::{la_trang, trang};
use crate::sua::doan_byte;

verus! {

/// Một chỗ khác nhau, ở dạng toán học.
pub struct KhacV {
    pub dau: nat,
    pub cuoi: nat,
    pub moi: Seq<char>,
}

/// Một chỗ khác nhau giữa hai bản.
#[derive(Debug, PartialEq, Eq)]
pub struct Khac {
    /// Khoảng byte trong bản **cũ**.
    pub cu: Range<usize>,
    /// Chữ thay vào.
    pub moi: String,
}

impl View for Khac {
    type V = KhacV;

    open spec fn view(&self) -> KhacV {
        KhacV { dau: self.cu.start as nat, cuoi: self.cu.end as nat, moi: self.moi@ }
    }
}

/// Các mảnh đã xong trong `s[..n]`, kèm chỗ bắt đầu của mảnh đang mở.
pub open spec fn manh_den(s: Seq<char>, n: int) -> (Seq<(int, int)>, int)
    decreases n,
{
    if n <= 1 {
        (seq![], 0)
    } else {
        let (ra, d) = manh_den(s, n - 1);
        if la_trang(s[n - 1]) != la_trang(s[n - 2]) {
            (ra.push((d, n - 1)), n - 1)
        } else {
            (ra, d)
        }
    }
}

/// Cắt thành mảnh (theo chỉ số ký tự): xen kẽ cụm khoảng trắng và cụm không
/// phải khoảng trắng.
pub open spec fn cat_manh_spec(s: Seq<char>) -> Seq<(int, int)> {
    let (ra, d) = manh_den(s, s.len() as int);
    if d < s.len() {
        ra.push((d, s.len() as int))
    } else {
        ra
    }
}

/// Các khoảng nối tiếp nhau không hở, mỗi khoảng khác rỗng, từ 0 tới `het`.
pub open spec fn lien_mach(ps: Seq<(int, int)>, het: int) -> bool {
    &&& ps.len() > 0 ==> ps[0].0 == 0
    &&& ps.len() > 0 ==> ps.last().1 == het
    &&& ps.len() == 0 ==> het == 0
    &&& forall|q: int| 0 <= q < ps.len() ==> (#[trigger] ps[q]).0 < ps[q].1
    &&& forall|q: int| 0 <= q < ps.len() - 1 ==> #[trigger] noi_tiep(ps, q)
}

/// Mảnh thứ `q + 1` bắt đầu đúng chỗ mảnh thứ `q` kết thúc.
pub open spec fn noi_tiep(ps: Seq<(int, int)>, q: int) -> bool {
    ps[q].1 == ps[q + 1].0
}

fn cat_manh(s: &[char]) -> (r: Vec<(usize, usize)>)
    ensures
        r@ == cat_manh_spec(s@).map_values(|p: (int, int)| (p.0 as usize, p.1 as usize)),
        lien_mach(cat_manh_spec(s@), s@.len() as int),
        forall|q: int| 0 <= q < r@.len() ==> (#[trigger] r@[q]).1 <= s@.len(),
        r@.len() == cat_manh_spec(s@).len(),
        forall|q: int| 0 <= q < r@.len() ==> (#[trigger] r@[q]).0 as int == cat_manh_spec(s@)[q].0 && r@[q].1 as int
            == cat_manh_spec(s@)[q].1 && r@[q].0 < r@[q].1,
{
    let mut ra: Vec<(usize, usize)> = Vec::new();
    let mut dau: usize = 0;
    if s.len() == 0 {
        assert(cat_manh_spec(s@) =~= Seq::<(int, int)>::empty());
        return ra;
    }
    let mut i: usize = 1;
    while i < s.len()
        invariant
            1 <= i <= s.len(),
            manh_den(s@, i as int).1 == dau as int,
            dau < i,
            manh_den(s@, i as int).0.map_values(|p: (int, int)| (p.0 as usize, p.1 as usize)) == ra@,
            lien_mach(manh_den(s@, i as int).0, dau as int),
            forall|q: int| 0 <= q < ra@.len() ==> (#[trigger] ra@[q]).1 <= i,
        decreases s.len() - i,
    {
        let t = trang(s[i]);
        let t_truoc = trang(s[i - 1]);
        if t != t_truoc {
            let ghost cu = manh_den(s@, i as int).0;
            ra.push((dau, i));
            assert(manh_den(s@, i + 1).0.map_values(|p: (int, int)| (p.0 as usize, p.1 as usize)) =~= ra@);
            let ghost moi = manh_den(s@, i + 1).0;
            assert(cu.len() > 0 ==> noi_tiep(moi, cu.len() - 1));
            assert forall|q: int| 0 <= q < moi.len() - 1 implies #[trigger] noi_tiep(moi, q) by {
                if q < cu.len() - 1 {
                    assert(noi_tiep(cu, q));
                }
            }
            dau = i;
        }
        i += 1;
    }
    let ghost cu = manh_den(s@, s@.len() as int).0;
    ra.push((dau, s.len()));
    let ghost moi = cat_manh_spec(s@);
    assert(cu.len() > 0 ==> noi_tiep(moi, cu.len() - 1));
    assert forall|q: int| 0 <= q < moi.len() - 1 implies #[trigger] noi_tiep(moi, q) by {
        if q < cu.len() - 1 {
            assert(noi_tiep(cu, q));
        }
    }
    assert(cat_manh_spec(s@).map_values(|p: (int, int)| (p.0 as usize, p.1 as usize)) =~= ra@);
    proof {
        assert forall|q: int| 0 <= q < ra@.len() implies (#[trigger] ra@[q]).0 as int == moi[q].0 && ra@[q].1 as int
            == moi[q].1 && ra@[q].0 < ra@[q].1 by {
            lemma_manh_tang(moi, 0, q);
            lemma_manh_tang(moi, q, moi.len() - 1);
            assert(ra@[q] == (moi[q].0 as usize, moi[q].1 as usize));
        }
    }
    ra
}

/// Nối các mảnh `ps[..k]` của `s`.
pub open spec fn noi_manh(s: Seq<char>, ps: Seq<(int, int)>, k: int) -> Seq<char>
    decreases k,
{
    if k <= 0 {
        seq![]
    } else {
        noi_manh(s, ps, k - 1) + s.subrange(ps[k - 1].0, ps[k - 1].1)
    }
}

proof fn lemma_noi_manh(s: Seq<char>, ps: Seq<(int, int)>, k: int)
    requires
        lien_mach(ps, s.len() as int),
        0 < k <= ps.len(),
        ps.last().1 <= s.len(),
    ensures
        noi_manh(s, ps, k) == s.subrange(0, ps[k - 1].1),
    decreases k,
{
    if k > 1 {
        lemma_noi_manh(s, ps, k - 1);
        lemma_manh_tang(ps, k - 1, ps.len() - 1);
        lemma_manh_tang(ps, 0, k - 2);
        assert(noi_tiep(ps, k - 2));
        assert(s.subrange(0, ps[k - 2].1) + s.subrange(ps[k - 1].0, ps[k - 1].1) =~= s.subrange(0, ps[k - 1].1));
    } else {
        assert(noi_manh(s, ps, 0) =~= Seq::<char>::empty());
    }
}

proof fn lemma_manh_tang(ps: Seq<(int, int)>, i: int, j: int)
    requires
        lien_mach(ps, ps.last().1),
        0 <= i <= j < ps.len(),
    ensures
        ps[i].1 <= ps[j].1,
        ps[i].0 <= ps[j].0,
    decreases j - i,
{
    if i < j {
        lemma_manh_tang(ps, i, j - 1);
        assert(noi_tiep(ps, j - 1));
    }
}

/// Một khoảng vá theo chỉ số ký tự: (đầu, cuối, chữ thay vào).
pub open spec fn dung_ky_tu(cu: Seq<char>, ks: Seq<(int, int, Seq<char>)>) -> (Seq<char>, int)
    decreases ks.len(),
{
    if ks.len() == 0 {
        (seq![], 0)
    } else {
        let (o, e) = dung_ky_tu(cu, ks.drop_last());
        let k = ks.last();
        (o + cu.subrange(e, k.0) + k.2, k.1)
    }
}

/// Áp các khoảng vá (theo chỉ số ký tự) rồi chép nốt bản cũ tới `het`.
pub open spec fn dung_den(cu: Seq<char>, ks: Seq<(int, int, Seq<char>)>, het: int) -> Seq<char> {
    let (o, e) = dung_ky_tu(cu, ks);
    o + cu.subrange(e, het)
}

/// Áp các khoảng vá (theo byte) lên bản cũ: chép phần cũ đứng trước mỗi khoảng,
/// thay khoảng ấy bằng chữ mới, rồi chép nốt phần cũ còn lại.
pub open spec fn ap_khac_den(cu: Seq<char>, ks: Seq<KhacV>) -> (Seq<char>, int)
    decreases ks.len(),
{
    if ks.len() == 0 {
        (seq![], 0)
    } else {
        let (o, e) = ap_khac_den(cu, ks.drop_last());
        let k = ks.last();
        (o + doan_byte(cu, e, k.dau as int) + k.moi, k.cuoi as int)
    }
}

/// Văn bản dựng lại khi áp các khoảng vá lên bản cũ.
pub open spec fn ap_khac(cu: Seq<char>, ks: Seq<KhacV>) -> Seq<char> {
    let (o, e) = ap_khac_den(cu, ks);
    o + doan_byte(cu, e, vstd::utf8::encode_utf8(cu).len() as int)
}

/// Các khoảng vá xếp tăng, không chồng nhau, và đều rơi đúng ranh giới ký tự.
pub open spec fn vi_tri_dung(cu: Seq<char>, ks: Seq<KhacV>) -> bool {
    &&& forall|q: int| 0 <= q < ks.len() ==> exists|k: int| 0 <= k <= cu.len() && vt_byte(cu, k) == (#[trigger] ks[q]).dau
    &&& forall|q: int| 0 <= q < ks.len() ==> exists|k: int| 0 <= k <= cu.len() && vt_byte(cu, k) == (#[trigger] ks[q]).cuoi
    &&& forall|q: int| 0 <= q < ks.len() ==> (#[trigger] ks[q]).dau <= ks[q].cuoi
    &&& forall|q: int| 0 <= q < ks.len() - 1 ==> #[trigger] khong_chong(ks, q)
}

/// Khoảng vá thứ `q + 1` bắt đầu không sớm hơn chỗ khoảng thứ `q` kết thúc.
pub open spec fn khong_chong(ks: Seq<KhacV>, q: int) -> bool {
    ks[q].cuoi <= ks[q + 1].dau
}

/// Dãy các khoảng vá ở dạng toán học.
pub open spec fn dsk(v: Seq<Khac>) -> Seq<KhacV> {
    v.map_values(|k: Khac| k@)
}

/// Số mảnh của một chuỗi.
pub open spec fn so_manh(s: Seq<char>) -> nat {
    cat_manh_spec(s).len()
}


/// Dãy khoảng vá theo chỉ số ký tự, ở dạng toán học.
pub open spec fn dvk(v: Seq<(usize, usize, Vec<char>)>) -> Seq<(int, int, Seq<char>)> {
    v.map_values(|k: (usize, usize, Vec<char>)| (k.0 as int, k.1 as int, k.2@))
}

/// Các khoảng vá (theo chỉ số ký tự) xếp tăng, không chồng nhau, khác rỗng, và
/// kết thúc không muộn hơn `het`.
pub open spec fn va_xep(ks: Seq<(int, int, Seq<char>)>, het: int) -> bool {
    &&& forall|q: int| 0 <= q < ks.len() ==> 0 <= (#[trigger] ks[q]).0 <= ks[q].1
    &&& forall|q: int| 0 <= q < ks.len() ==> (#[trigger] ks[q]).0 < ks[q].1 || ks[q].2.len() > 0
    &&& forall|q: int| 0 <= q < ks.len() - 1 ==> #[trigger] ke_sau(ks, q)
    &&& ks.len() > 0 ==> ks.last().1 <= het
}

/// Khoảng vá thứ `q + 1` không bắt đầu trước chỗ khoảng thứ `q` kết thúc.
pub open spec fn ke_sau(ks: Seq<(int, int, Seq<char>)>, q: int) -> bool {
    ks[q].1 <= ks[q + 1].0
}

proof fn lemma_dung_keo_dai(cu: Seq<char>, ks: Seq<(int, int, Seq<char>)>, x: int, y: int)
    requires
        ks.len() > 0 ==> 0 <= ks.last().1 <= x,
        0 <= x <= y <= cu.len(),
    ensures
        dung_den(cu, ks, y) == dung_den(cu, ks, x) + cu.subrange(x, y),
{
    let (o, e) = dung_ky_tu(cu, ks);
    assert(ks.len() == 0 ==> e == 0);
    assert(ks.len() > 0 ==> e == ks.last().1);
    assert(cu.subrange(e, y) =~= cu.subrange(e, x) + cu.subrange(x, y));
}

proof fn lemma_dung_doi_cuoi(cu: Seq<char>, ks: Seq<(int, int, Seq<char>)>, p: int, q: int, w: Seq<char>)
    requires
        ks.len() > 0,
        ks.last().1 == p,
        0 <= p <= q <= cu.len(),
    ensures
        dung_den(cu, ks.drop_last().push((ks.last().0, q, ks.last().2 + w)), q) == dung_den(cu, ks, p) + w,
{
    let k = ks.last();
    let ks2 = ks.drop_last().push((k.0, q, k.2 + w));
    assert(ks2.drop_last() =~= ks.drop_last());
    assert(cu.subrange(q, q) =~= Seq::<char>::empty());
    assert(cu.subrange(p, p) =~= Seq::<char>::empty());
    let (o, e) = dung_ky_tu(cu, ks.drop_last());
    assert(dung_den(cu, ks2, q) =~= o + cu.subrange(e, k.0) + k.2 + w);
    assert(dung_den(cu, ks, p) =~= o + cu.subrange(e, k.0) + k.2);
}

proof fn lemma_dung_them(cu: Seq<char>, ks: Seq<(int, int, Seq<char>)>, p: int, q: int, w: Seq<char>)
    requires
        ks.len() > 0 ==> ks.last().1 <= p,
        0 <= p <= q <= cu.len(),
    ensures
        dung_den(cu, ks.push((p, q, w)), q) == dung_den(cu, ks, p) + w,
{
    let ks2 = ks.push((p, q, w));
    assert(ks2.drop_last() =~= ks);
    let (o, e) = dung_ky_tu(cu, ks);
    assert(ks.len() == 0 ==> e == 0);
    assert(cu.subrange(q, q) =~= Seq::<char>::empty());
    assert(dung_den(cu, ks2, q) =~= o + cu.subrange(e, p) + w);
}

/// Đổi khoảng vá theo chỉ số ký tự sang khoảng byte.
pub open spec fn sang_byte(cu: Seq<char>, ks: Seq<(int, int, Seq<char>)>) -> Seq<KhacV> {
    ks.map_values(|k: (int, int, Seq<char>)| KhacV { dau: vt_byte(cu, k.0), cuoi: vt_byte(cu, k.1), moi: k.2 })
}

proof fn lemma_sang_byte(cu: Seq<char>, ks: Seq<(int, int, Seq<char>)>)
    requires
        va_xep(ks, cu.len() as int),
    ensures
        ap_khac_den(cu, sang_byte(cu, ks)).0 == dung_ky_tu(cu, ks).0,
        ap_khac_den(cu, sang_byte(cu, ks)).1 == vt_byte(cu, dung_ky_tu(cu, ks).1),
        0 <= dung_ky_tu(cu, ks).1 <= cu.len(),
    decreases ks.len(),
{
    if ks.len() == 0 {
        assert(vt_byte(cu, 0) == 0) by {
            assert(cu.take(0) =~= Seq::<char>::empty());
        }
    } else {
        let d = ks.drop_last();
        assert forall|q: int| 0 <= q < d.len() - 1 implies #[trigger] ke_sau(d, q) by {
            assert(ke_sau(ks, q));
        }
        if d.len() > 0 {
            assert(ke_sau(ks, d.len() - 1));
            assert(d.last().1 <= ks.last().0);
        }
        lemma_sang_byte(cu, d);
        assert(sang_byte(cu, ks).drop_last() =~= sang_byte(cu, d));
        let k = ks.last();
        let e = dung_ky_tu(cu, d).1;
        crate::sua::lemma_chi_so(cu, e);
        crate::sua::lemma_chi_so(cu, k.0);
    }
}

proof fn lemma_bat_doi_chieu(n: int, m: int)
    requires
        n > 0,
        m >= 0,
    ensures
        (m > 4000000int / n) <==> (n * m > 4000000int),
{
    assert((m > 4000000int / n) <==> (n * m > 4000000int)) by (nonlinear_arith)
        requires
            n > 0,
            m >= 0,
    ;
}

/// Mảnh thứ `i` của `cu` trùng mảnh thứ `j` của `moi`.
pub open spec fn khop_manh(cu: Seq<char>, mc: Seq<(int, int)>, moi: Seq<char>, mm: Seq<(int, int)>, i: int, j: int) -> bool {
    cu.subrange(mc[i].0, mc[i].1) == moi.subrange(mm[j].0, mm[j].1)
}

/// Độ dài dãy con chung dài nhất của hai dãy mảnh, tính từ mảnh `i` của `cu` và
/// mảnh `j` của `moi`.
pub open spec fn chung_dai(cu: Seq<char>, mc: Seq<(int, int)>, moi: Seq<char>, mm: Seq<(int, int)>, i: int, j: int) -> nat
    decreases mc.len() + mm.len() - i - j,
{
    if i < 0 || j < 0 || i >= mc.len() || j >= mm.len() {
        0
    } else if khop_manh(cu, mc, moi, mm, i, j) {
        1 + chung_dai(cu, mc, moi, mm, i + 1, j + 1)
    } else {
        let a = chung_dai(cu, mc, moi, mm, i + 1, j);
        let b = chung_dai(cu, mc, moi, mm, i, j + 1);
        if a >= b {
            a
        } else {
            b
        }
    }
}

/// Trạng thái khi dò lại: các khoảng vá đã chốt, và khoảng đang mở (nếu có).
pub struct VetV {
    pub ra: Seq<(int, int, Seq<char>)>,
    pub co: bool,
    pub dd: int,
    pub dc: int,
    pub ds: Seq<char>,
}

/// Các khoảng vá đã chốt, thêm khoảng đang mở.
pub open spec fn chot(v: VetV) -> Seq<(int, int, Seq<char>)> {
    if v.co {
        v.ra.push((v.dd, v.dc, v.ds))
    } else {
        v.ra
    }
}

/// Trạng thái không có khoảng đang mở.
pub open spec fn dong(ra: Seq<(int, int, Seq<char>)>) -> VetV {
    VetV { ra, co: false, dd: 0, dc: 0, ds: seq![] }
}

/// Dò lại từ ô `(i, j)` của bảng dãy con chung: hai mảnh trùng nhau thì giữ;
/// không thì chèn mảnh của bản mới khi việc ấy không làm mất mảnh chung nào, còn
/// lại thì xoá mảnh của bản cũ. Các mảnh chèn và xoá liền nhau gom thành một
/// khoảng vá (theo chỉ số ký tự của bản cũ).
pub open spec fn vet(cu: Seq<char>, mc: Seq<(int, int)>, moi: Seq<char>, mm: Seq<(int, int)>, i: int, j: int, v: VetV) -> Seq<
    (int, int, Seq<char>),
>
    decreases mc.len() + mm.len() - i - j,
{
    if i < 0 || j < 0 || i > mc.len() || j > mm.len() || (i == mc.len() && j == mm.len()) {
        chot(v)
    } else if i < mc.len() && j < mm.len() && khop_manh(cu, mc, moi, mm, i, j) {
        vet(cu, mc, moi, mm, i + 1, j + 1, dong(chot(v)))
    } else if j < mm.len() && (i >= mc.len() || chung_dai(cu, mc, moi, mm, i, j + 1) >= chung_dai(cu, mc, moi, mm, i + 1, j)) {
        let vtri = if i < mc.len() { mc[i].0 } else { cu.len() as int };
        let manh = moi.subrange(mm[j].0, mm[j].1);
        vet(cu, mc, moi, mm, i, j + 1, if v.co && v.dc == vtri {
            VetV { ds: v.ds + manh, ..v }
        } else {
            VetV { ra: chot(v), co: true, dd: vtri, dc: vtri, ds: manh }
        })
    } else if i < mc.len() {
        vet(cu, mc, moi, mm, i + 1, j, if v.co && v.dc == mc[i].0 {
            VetV { dc: mc[i].1, ..v }
        } else {
            VetV { ra: chot(v), co: true, dd: mc[i].0, dc: mc[i].1, ds: seq![] }
        })
    } else {
        chot(v)
    }
}

/// Trạng thái dò lại ứng với các biến của vòng lặp.
pub open spec fn trang_thai(ra: Seq<(int, int, Seq<char>)>, co: bool, dd: usize, dc: usize, ds: Seq<char>) -> VetV {
    if co {
        VetV { ra, co, dd: dd as int, dc: dc as int, ds }
    } else {
        dong(ra)
    }
}

/// Các chỗ khác nhau theo phép dò lại trên bảng dãy con chung của hai dãy mảnh.
pub open spec fn khac_theo_manh(cu: Seq<char>, moi: Seq<char>) -> Seq<KhacV> {
    sang_byte(cu, vet(cu, cat_manh_spec(cu), moi, cat_manh_spec(moi), 0, 0, dong(seq![])))
}

/// Kết quả của [`so`]: không có chỗ nào khi hai bản bằng nhau; một khoảng phủ cả
/// bản cũ khi tích số mảnh hai bên vượt bốn triệu; còn lại là
/// [`khac_theo_manh`].
pub open spec fn khac_spec(cu: Seq<char>, moi: Seq<char>) -> Seq<KhacV> {
    if cu == moi {
        seq![]
    } else if so_manh(cu) * so_manh(moi) > 4000000 {
        seq![KhacV { dau: 0, cuoi: vstd::utf8::encode_utf8(cu).len(), moi: moi }]
    } else {
        khac_theo_manh(cu, moi)
    }
}

/// So hai bản, trả về các chỗ khác nhau.
///
/// Mảnh khớp nhau được chọn theo chuỗi con chung dài nhất của hai dãy mảnh; các
/// mảnh khác nhau liền kề gom thành một khoảng vá. Đoạn quá dài (tích số mảnh
/// hai bên vượt bốn triệu) thì trả về **một** khoảng phủ cả bản cũ.
pub fn so(cu: &str, moi: &str) -> (r: Vec<Khac>)
    ensures
        dsk(r@) == khac_spec(cu@, moi@),
        cu@ == moi@ ==> r@.len() == 0,
        cu@ != moi@ && so_manh(cu@) * so_manh(moi@) > 4000000 ==> dsk(r@) == seq![
            KhacV { dau: 0, cuoi: vstd::utf8::encode_utf8(cu@).len(), moi: moi@ },
        ],
        cu@ != moi@ && so_manh(cu@) * so_manh(moi@) <= 4000000 ==> dsk(r@) == khac_theo_manh(cu@, moi@),
        ap_khac(cu@, dsk(r@)) == moi@,
        vi_tri_dung(cu@, dsk(r@)),
        forall|q: int| 0 <= q < r@.len() ==> (#[trigger] dsk(r@)[q]).dau < dsk(r@)[q].cuoi || dsk(r@)[q].moi.len() > 0,
{
    let vc = ky_tu(cu);
    let vm = ky_tu(moi);
    let bc = bang_vi_tri(cu);
    proof {
        assert(cu@.take(0) =~= Seq::<char>::empty());
        assert(cu@.take(cu@.len() as int) =~= cu@);
        crate::sua::lemma_chi_so(cu@, 0);
        crate::sua::lemma_chi_so(cu@, cu@.len() as int);
    }
    if bang_nhau(&vc, &vm) {
        let r: Vec<Khac> = Vec::new();
        proof {
            assert(dsk(r@) =~= Seq::<KhacV>::empty());
            assert(cu@.subrange(0, cu@.len() as int) =~= cu@);
        }
        return r;
    }
    let mc = cat_manh(&vc);
    let mm = cat_manh(&vm);
    let n = mc.len();
    let m = mm.len();
    proof {
        if n > 0 {
            lemma_bat_doi_chieu(n as int, m as int);
        }
    }
    if n > 0 && m > 4000000 / n {
        return ca_doan(cu, moi, &vm, &bc);
    }
    let ghost mcs = cat_manh_spec(cu@);
    let ghost mms = cat_manh_spec(moi@);
    let bang = dung_bang(&vc, &vm, &mc, &mm, Ghost(mcs), Ghost(mms));
    let ra = lan_theo(&vc, &vm, &mc, &mm, &bang, Ghost(mcs), Ghost(mms));
    sang_khac(cu, moi, &ra, &bc)
}

fn ca_doan(cu: &str, moi: &str, vm: &Vec<char>, bc: &Vec<usize>) -> (r: Vec<Khac>)
    requires
        cu@ != moi@,
        vm@ == moi@,
        bc@.len() == cu@.len() + 1,
        forall|k: int| 0 <= k <= cu@.len() ==> #[trigger] bc@[k] == vt_byte(cu@, k),
    ensures
        dsk(r@) == seq![KhacV { dau: 0, cuoi: vstd::utf8::encode_utf8(cu@).len(), moi: moi@ }],
        ap_khac(cu@, dsk(r@)) == moi@,
        vi_tri_dung(cu@, dsk(r@)),
        forall|q: int| 0 <= q < r@.len() ==> (#[trigger] dsk(r@)[q]).dau < dsk(r@)[q].cuoi || dsk(r@)[q].moi.len() > 0,
{
    proof {
        assert(cu@.take(0) =~= Seq::<char>::empty());
        assert(cu@.take(cu@.len() as int) =~= cu@);
        crate::sua::lemma_chi_so(cu@, 0);
        crate::sua::lemma_chi_so(cu@, cu@.len() as int);
    }
    let mut r: Vec<Khac> = Vec::new();
    r.push(Khac { cu: 0..bc[bc.len() - 1], moi: chuoi(vm) });
    proof {
        let l = vstd::utf8::encode_utf8(cu@).len() as int;
        let ks = dsk(r@);
        assert(vt_byte(cu@, cu@.len() as int) == l);
        assert(ks =~= seq![KhacV { dau: 0, cuoi: l as nat, moi: moi@ }]);
        assert(ks.drop_last() =~= Seq::<KhacV>::empty());
        assert(doan_byte(cu@, 0, 0) =~= Seq::<char>::empty());
        assert(doan_byte(cu@, l, l) =~= Seq::<char>::empty());
        assert(ap_khac_den(cu@, ks.drop_last()) == (Seq::<char>::empty(), 0int));
        assert(ap_khac_den(cu@, ks) == (Seq::<char>::empty() + doan_byte(cu@, 0, 0) + moi@, l));
        assert(ap_khac(cu@, ks) =~= moi@);
        assert(vt_byte(cu@, 0) == ks[0].dau);
        assert(vt_byte(cu@, cu@.len() as int) == ks[0].cuoi);
        if moi@.len() == 0 {
            crate::chuoi::lemma_vt_byte_tang(cu@, 0, cu@.len() as int);
            if cu@.len() == 0 {
                assert(cu@ =~= moi@);
            }
        }
    }
    r
}

fn dung_bang(
    vc: &Vec<char>,
    vm: &Vec<char>,
    mc: &Vec<(usize, usize)>,
    mm: &Vec<(usize, usize)>,
    Ghost(mcs): Ghost<Seq<(int, int)>>,
    Ghost(mms): Ghost<Seq<(int, int)>>,
) -> (bang: Vec<Vec<usize>>)
    requires
        mc@.len() == mcs.len(),
        mm@.len() == mms.len(),
        forall|q: int| 0 <= q < mc@.len() ==> (#[trigger] mc@[q]).0 as int == mcs[q].0 && mc@[q].1 as int == mcs[q].1,
        forall|q: int| 0 <= q < mm@.len() ==> (#[trigger] mm@[q]).0 as int == mms[q].0 && mm@[q].1 as int == mms[q].1,
        forall|q: int| 0 <= q < mc@.len() ==> (#[trigger] mc@[q]).0 < mc@[q].1 <= vc@.len(),
        forall|q: int| 0 <= q < mm@.len() ==> (#[trigger] mm@[q]).0 < mm@[q].1 <= vm@.len(),
    ensures
        bang@.len() == mc@.len() + 1,
        forall|q: int| 0 <= q <= mc@.len() ==> (#[trigger] bang@[q])@.len() == mm@.len() + 1,
        forall|q: int, c: int| 0 <= q <= mc@.len() && 0 <= c <= mm@.len() ==> #[trigger] bang@[q]@[c] == chung_dai(vc@, mcs, vm@, mms, q, c),
{
    let n = mc.len();
    let m = mm.len();
    let mut bang = bang_khong(n, m);
    let mut i: usize = n;
    while i > 0
        invariant
            i <= n,
            n == mc@.len(),
            m == mm@.len(),
            bang@.len() == n + 1,
            forall|q: int| 0 <= q <= n ==> (#[trigger] bang@[q])@.len() == m + 1,
            forall|q: int, c: int| 0 <= q <= n && 0 <= c <= m ==> #[trigger] bang@[q]@[c] <= n - q,
            forall|q: int, c: int| i <= q <= n && 0 <= c <= m ==> #[trigger] bang@[q]@[c] == chung_dai(vc@, mcs, vm@, mms, q, c),
            forall|q: int, c: int| 0 <= q < i && 0 <= c <= m ==> #[trigger] bang@[q]@[c] == 0,
            mc@.len() == mcs.len(),
            mm@.len() == mms.len(),
            forall|q: int| 0 <= q < mc@.len() ==> (#[trigger] mc@[q]).0 as int == mcs[q].0 && mc@[q].1 as int == mcs[q].1,
            forall|q: int| 0 <= q < mm@.len() ==> (#[trigger] mm@[q]).0 as int == mms[q].0 && mm@[q].1 as int == mms[q].1,
            forall|q: int| 0 <= q < mc@.len() ==> (#[trigger] mc@[q]).0 < mc@[q].1 <= vc@.len(),
            forall|q: int| 0 <= q < mm@.len() ==> (#[trigger] mm@[q]).0 < mm@[q].1 <= vm@.len(),
        decreases i,
    {
        i -= 1;
        let mut hang: Vec<usize> = chep_hang(&bang[i]);
        assert(hang@[m as int] == 0);
        let mut j: usize = m;
        while j > 0
            invariant
                i < n,
                j <= m,
                n == mc@.len(),
                m == mm@.len(),
                bang@.len() == n + 1,
                forall|q: int| 0 <= q <= n ==> (#[trigger] bang@[q])@.len() == m + 1,
                forall|q: int, c: int| 0 <= q <= n && 0 <= c <= m ==> #[trigger] bang@[q]@[c] <= n - q,
                hang@.len() == m + 1,
                forall|c: int| 0 <= c <= m ==> #[trigger] hang@[c] <= n - i,
                forall|q: int, c: int| i < q <= n && 0 <= c <= m ==> #[trigger] bang@[q]@[c] == chung_dai(vc@, mcs, vm@, mms, q, c),
                forall|c: int| j <= c <= m ==> #[trigger] hang@[c] == chung_dai(vc@, mcs, vm@, mms, i as int, c),
                forall|q: int, c: int| 0 <= q < i && 0 <= c <= m ==> #[trigger] bang@[q]@[c] == 0,
                mc@.len() == mcs.len(),
                mm@.len() == mms.len(),
                forall|q: int| 0 <= q < mc@.len() ==> (#[trigger] mc@[q]).0 as int == mcs[q].0 && mc@[q].1 as int == mcs[q].1,
                forall|q: int| 0 <= q < mm@.len() ==> (#[trigger] mm@[q]).0 as int == mms[q].0 && mm@[q].1 as int == mms[q].1,
                forall|q: int| 0 <= q < mc@.len() ==> (#[trigger] mc@[q]).0 < mc@[q].1 <= vc@.len(),
                forall|q: int| 0 <= q < mm@.len() ==> (#[trigger] mm@[q]).0 < mm@[q].1 <= vm@.len(),
            decreases j,
        {
            j -= 1;
            let v = if doan_bang(&vc, mc[i].0, mc[i].1, &vm, mm[j].0, mm[j].1) {
                bang[i + 1][j + 1] + 1
            } else {
                let duoi = bang[i + 1][j];
                let phai = hang[j + 1];
                if duoi >= phai {
                    duoi
                } else {
                    phai
                }
            };
            hang.set(j, v);
        }
        let ghost h = hang@;
        bang.set(i, hang);
        assert(bang@[i as int]@ == h);
    }
    bang
}

fn lan_theo(
    vc: &Vec<char>,
    vm: &Vec<char>,
    mc: &Vec<(usize, usize)>,
    mm: &Vec<(usize, usize)>,
    bang: &Vec<Vec<usize>>,
    Ghost(mcs): Ghost<Seq<(int, int)>>,
    Ghost(mms): Ghost<Seq<(int, int)>>,
) -> (ra: Vec<(usize, usize, Vec<char>)>)
    requires
        mcs == cat_manh_spec(vc@),
        mms == cat_manh_spec(vm@),
        lien_mach(mcs, vc@.len() as int),
        lien_mach(mms, vm@.len() as int),
        mc@.len() == mcs.len(),
        mm@.len() == mms.len(),
        forall|q: int| 0 <= q < mc@.len() ==> (#[trigger] mc@[q]).0 as int == mcs[q].0 && mc@[q].1 as int == mcs[q].1,
        forall|q: int| 0 <= q < mm@.len() ==> (#[trigger] mm@[q]).0 as int == mms[q].0 && mm@[q].1 as int == mms[q].1,
        forall|q: int| 0 <= q < mc@.len() ==> (#[trigger] mc@[q]).0 < mc@[q].1 <= vc@.len(),
        forall|q: int| 0 <= q < mm@.len() ==> (#[trigger] mm@[q]).0 < mm@[q].1 <= vm@.len(),
        bang@.len() == mc@.len() + 1,
        forall|q: int| 0 <= q <= mc@.len() ==> (#[trigger] bang@[q])@.len() == mm@.len() + 1,
        forall|q: int, c: int| 0 <= q <= mc@.len() && 0 <= c <= mm@.len() ==> #[trigger] bang@[q]@[c] == chung_dai(vc@, mcs, vm@, mms, q, c),
    ensures
        dvk(ra@) == vet(vc@, mcs, vm@, mms, 0, 0, dong(seq![])),
        va_xep(dvk(ra@), vc@.len() as int),
        dung_den(vc@, dvk(ra@), vc@.len() as int) == vm@,
{
    let n = mc.len();
    let m = mm.len();
    let mut ra: Vec<(usize, usize, Vec<char>)> = Vec::new();
    let mut co_dang = false;
    let mut dd: usize = 0;
    let mut dc: usize = 0;
    let mut ds: Vec<char> = Vec::new();
    let mut i: usize = 0;
    let mut j: usize = 0;
    let ghost dich = vet(vc@, mcs, vm@, mms, 0, 0, dong(seq![]));
    proof {
        assert(noi_manh(vm@, mms, 0) =~= Seq::<char>::empty());
        assert(vc@.subrange(0, 0) =~= Seq::<char>::empty());
        assert(dvk(ra@) =~= Seq::<(int, int, Seq<char>)>::empty());
    }
    while i < n || j < m
        invariant
            i <= n,
            j <= m,
            n == mc@.len(),
            m == mm@.len(),
            bang@.len() == n + 1,
            forall|q: int| 0 <= q <= n ==> (#[trigger] bang@[q])@.len() == m + 1,
            forall|q: int, c: int| 0 <= q <= n && 0 <= c <= m ==> #[trigger] bang@[q]@[c] == chung_dai(vc@, mcs, vm@, mms, q, c),
            vet(vc@, mcs, vm@, mms, i as int, j as int, trang_thai(dvk(ra@), co_dang, dd, dc, ds@)) == dich,
            mcs == cat_manh_spec(vc@),
            mms == cat_manh_spec(vm@),
            mc@.len() == mcs.len(),
            mm@.len() == mms.len(),
            forall|q: int| 0 <= q < mc@.len() ==> (#[trigger] mc@[q]).0 as int == mcs[q].0 && mc@[q].1 as int == mcs[q].1,
            forall|q: int| 0 <= q < mm@.len() ==> (#[trigger] mm@[q]).0 as int == mms[q].0 && mm@[q].1 as int == mms[q].1,
            lien_mach(mcs, vc@.len() as int),
            lien_mach(mms, vm@.len() as int),
            forall|q: int| 0 <= q < mc@.len() ==> (#[trigger] mc@[q]).0 < mc@[q].1 <= vc@.len(),
            forall|q: int| 0 <= q < mm@.len() ==> (#[trigger] mm@[q]).0 < mm@[q].1 <= vm@.len(),
            vc@ == vc@,
            vm@ == vm@,
            va_xep(day_du(dvk(ra@), co_dang, dd, dc, ds@), dau_manh(mcs, i as int, vc@.len() as int)),
            co_dang ==> dc == dau_manh(mcs, i as int, vc@.len() as int),
            dung_den(vc@, day_du(dvk(ra@), co_dang, dd, dc, ds@), dau_manh(mcs, i as int, vc@.len() as int))
                == noi_manh(vm@, mms, j as int),
        decreases (n - i) + (m - j),
    {
        let ghost p_i = dau_manh(mcs, i as int, vc@.len() as int);
        let ghost full = day_du(dvk(ra@), co_dang, dd, dc, ds@);
        let ghost st0 = trang_thai(dvk(ra@), co_dang, dd, dc, ds@);
        let ghost i0 = i as int;
        let ghost j0 = j as int;
        proof {
            lemma_dau_manh(mcs, i as int, vc@.len() as int);
        }
        if i < n && j < m && doan_bang(&vc, mc[i].0, mc[i].1, &vm, mm[j].0, mm[j].1) {
            if co_dang {
                let ghost cu_ra = dvk(ra@);
                ra.push((dd, dc, ds));
                ds = Vec::new();
                co_dang = false;
                assert(dvk(ra@) =~= cu_ra.push((dd as int, dc as int, full.last().2)));
                assert(day_du(dvk(ra@), co_dang, dd, dc, ds@) =~= full);
            }
            proof {
                lemma_dau_manh(mcs, i + 1, vc@.len() as int);
                lemma_buoc_manh(mcs, i as int, vc@.len() as int);
                lemma_dung_keo_dai(vc@, full, p_i, mcs[i as int].1);
                lemma_va_xep_rong(full, p_i, mcs[i as int].1);
                assert(vc@.subrange(mcs[i as int].0, mcs[i as int].1) == vm@.subrange(mms[j as int].0, mms[j as int].1));
            }
            i += 1;
            j += 1;
            assert(trang_thai(dvk(ra@), co_dang, dd, dc, ds@) == dong(chot(st0)));
            assert(vet(vc@, mcs, vm@, mms, i0, j0, st0) == vet(vc@, mcs, vm@, mms, i0 + 1, j0 + 1, dong(chot(st0))));
        } else if j < m && (i == n || bang[i][j + 1] >= bang[i + 1][j]) {
            let vtri = if i < n { mc[i].0 } else { vc.len() };
            let manh = cat_doan(&vm, mm[j].0, mm[j].1);
            if co_dang && dc == vtri {
                let ghost cu_ra = dvk(ra@);
                ds = noi(&ds, &manh);
                proof {
                    assert(full.drop_last() =~= cu_ra);
                    lemma_dung_doi_cuoi(vc@, full, p_i, p_i, manh@);
                    lemma_va_xep_doi(full, p_i, p_i, manh@);
                    assert(day_du(dvk(ra@), co_dang, dd, dc, ds@) =~= full.drop_last().push((full.last().0, p_i, full.last().2 + manh@)));
                }
            } else {
                if co_dang {
                    let ghost cu_ra = dvk(ra@);
                    ra.push((dd, dc, ds));
                    assert(dvk(ra@) =~= cu_ra.push((dd as int, dc as int, full.last().2)));
                }
                let ghost ra_cu = dvk(ra@);
                assert(ra_cu =~= full);
                co_dang = true;
                dd = vtri;
                dc = vtri;
                ds = manh;
                proof {
                    lemma_dung_them(vc@, full, p_i, p_i, manh@);
                    assert(mms[j as int].0 < mms[j as int].1);
                    assert(manh@.len() > 0);
                    lemma_va_xep_them(full, p_i, p_i, manh@);
                    assert(day_du(dvk(ra@), co_dang, dd, dc, ds@) =~= full.push((p_i, p_i, manh@)));
                }
            }
            proof {
                assert(mms[j as int].0 < mms[j as int].1);
                assert(manh@.len() > 0);
            }
            j += 1;
            proof {
                let vtri_s = if i0 < mcs.len() { mcs[i0].0 } else { vc@.len() as int };
                let manh_s = vm@.subrange(mms[j0].0, mms[j0].1);
                let st1 = if st0.co && st0.dc == vtri_s {
                    VetV { ds: st0.ds + manh_s, ..st0 }
                } else {
                    VetV { ra: chot(st0), co: true, dd: vtri_s, dc: vtri_s, ds: manh_s }
                };
                assert(trang_thai(dvk(ra@), co_dang, dd, dc, ds@) == st1);
                assert(vet(vc@, mcs, vm@, mms, i0, j0, st0) == vet(vc@, mcs, vm@, mms, i0, j0 + 1, st1));
            }
        } else {
            let ghost p_sau = mcs[i as int].1;
            proof {
                lemma_buoc_manh(mcs, i as int, vc@.len() as int);
            }
            if co_dang && dc == mc[i].0 {
                dc = mc[i].1;
                proof {
                    lemma_dung_doi_cuoi(vc@, full, p_i, p_sau, Seq::<char>::empty());
                    lemma_va_xep_doi(full, p_i, p_sau, Seq::<char>::empty());
                    assert(full.last().2 + Seq::<char>::empty() =~= full.last().2);
                    assert(day_du(dvk(ra@), co_dang, dd, dc, ds@) =~= full.drop_last().push((full.last().0, p_sau, full.last().2 + Seq::<char>::empty())));
                }
            } else {
                if co_dang {
                    let ghost cu_ra = dvk(ra@);
                    ra.push((dd, dc, ds));
                    assert(dvk(ra@) =~= cu_ra.push((dd as int, dc as int, full.last().2)));
                }
                assert(dvk(ra@) =~= full);
                co_dang = true;
                dd = mc[i].0;
                dc = mc[i].1;
                ds = Vec::new();
                proof {
                    lemma_dung_them(vc@, full, p_i, p_sau, Seq::<char>::empty());
                    lemma_va_xep_them(full, p_i, p_sau, Seq::<char>::empty());
                    assert(dung_den(vc@, full, p_i) + Seq::<char>::empty() =~= dung_den(vc@, full, p_i));
                    assert(day_du(dvk(ra@), co_dang, dd, dc, ds@) =~= full.push((p_i, p_sau, Seq::<char>::empty())));
                }
            }
            proof {
                lemma_dau_manh(mcs, i + 1, vc@.len() as int);
            }
            i += 1;
            proof {
                let st1 = if st0.co && st0.dc == mcs[i0].0 {
                    VetV { dc: mcs[i0].1, ..st0 }
                } else {
                    VetV { ra: chot(st0), co: true, dd: mcs[i0].0, dc: mcs[i0].1, ds: seq![] }
                };
                assert(trang_thai(dvk(ra@), co_dang, dd, dc, ds@) == st1);
                assert(vet(vc@, mcs, vm@, mms, i0, j0, st0) == vet(vc@, mcs, vm@, mms, i0 + 1, j0, st1));
            }
        }
    }
    assert(vet(vc@, mcs, vm@, mms, i as int, j as int, trang_thai(dvk(ra@), co_dang, dd, dc, ds@)) == day_du(dvk(ra@), co_dang, dd, dc, ds@));
    if co_dang {
        let ghost cu_ra = dvk(ra@);
        let ghost full = day_du(dvk(ra@), co_dang, dd, dc, ds@);
        ra.push((dd, dc, ds));
        assert(dvk(ra@) =~= full);
    }
    proof {
        assert(dau_manh(mcs, n as int, vc@.len() as int) == vc@.len());
        if m > 0 {
            lemma_noi_manh(vm@, mms, m as int);
            assert(vm@.subrange(0, vm@.len() as int) =~= vm@);
        } else {
            assert(vm@ =~= Seq::<char>::empty());
        }
    }
    ra
}

fn sang_khac(cu: &str, moi: &str, ra: &Vec<(usize, usize, Vec<char>)>, bc: &Vec<usize>) -> (r: Vec<Khac>)
    requires
        va_xep(dvk(ra@), cu@.len() as int),
        dung_den(cu@, dvk(ra@), cu@.len() as int) == moi@,
        bc@.len() == cu@.len() + 1,
        forall|k: int| 0 <= k <= cu@.len() ==> #[trigger] bc@[k] == vt_byte(cu@, k),
    ensures
        dsk(r@) == sang_byte(cu@, dvk(ra@)),
        ap_khac(cu@, dsk(r@)) == moi@,
        vi_tri_dung(cu@, dsk(r@)),
        forall|q: int| 0 <= q < r@.len() ==> (#[trigger] dsk(r@)[q]).dau < dsk(r@)[q].cuoi || dsk(r@)[q].moi.len() > 0,
{
    let ghost ks = dvk(ra@);
    proof {
        lemma_va_xep_chan(ks, cu@.len() as int);
        lemma_sang_byte(cu@, ks);
        assert(cu@.take(cu@.len() as int) =~= cu@);
        crate::sua::lemma_chi_so(cu@, cu@.len() as int);
    }
    let mut r: Vec<Khac> = Vec::new();
    let mut q: usize = 0;
    while q < ra.len()
        invariant
            q <= ra.len(),
            ks == dvk(ra@),
            va_xep(ks, cu@.len() as int),
            forall|t: int| 0 <= t < ks.len() ==> (#[trigger] ks[t]).1 <= cu@.len(),
            bc@.len() == cu@.len() + 1,
            forall|k: int| 0 <= k <= cu@.len() ==> #[trigger] bc@[k] == vt_byte(cu@, k),
            dsk(r@) == sang_byte(cu@, ks).take(q as int),
        decreases ra.len() - q,
    {
        let k = &ra[q];
        assert(ks[q as int] == (k.0 as int, k.1 as int, k.2@));
        if k.0 < k.1 || k.2.len() > 0 {
            let ghost truoc = dsk(r@);
            r.push(Khac { cu: bc[k.0]..bc[k.1], moi: chuoi(&k.2) });
            assert(dsk(r@) =~= truoc.push(sang_byte(cu@, ks)[q as int]));
        }
        assert(sang_byte(cu@, ks).take(q + 1) =~= sang_byte(cu@, ks).take(q as int).push(sang_byte(cu@, ks)[q as int]));
        q += 1;
    }
    proof {
        let kb = sang_byte(cu@, ks);
        assert(kb.take(ks.len() as int) =~= kb);
        let e = dung_ky_tu(cu@, ks).1;
        crate::sua::lemma_chi_so(cu@, e);
        assert(ap_khac(cu@, dsk(r@)) == moi@);
        assert forall|t: int| 0 <= t < kb.len() implies exists|k: int| 0 <= k <= cu@.len() && vt_byte(cu@, k) == (#[trigger] kb[t]).dau by {
            assert(vt_byte(cu@, ks[t].0) == kb[t].dau);
        }
        assert forall|t: int| 0 <= t < kb.len() implies exists|k: int| 0 <= k <= cu@.len() && vt_byte(cu@, k) == (#[trigger] kb[t]).cuoi by {
            assert(vt_byte(cu@, ks[t].1) == kb[t].cuoi);
        }
        assert forall|t: int| 0 <= t < kb.len() - 1 implies #[trigger] khong_chong(kb, t) by {
            assert(ke_sau(ks, t));
            lemma_vt_byte_tang(cu@, ks[t].1, ks[t + 1].0);
        }
        assert forall|t: int| 0 <= t < kb.len() implies (#[trigger] kb[t]).dau < kb[t].cuoi || kb[t].moi.len() > 0 by {
            if ks[t].0 < ks[t].1 {
                lemma_vt_byte_tang(cu@, ks[t].0, ks[t].1);
            }
        }
        assert forall|t: int| 0 <= t < kb.len() implies (#[trigger] kb[t]).dau <= kb[t].cuoi by {
            lemma_vt_byte_tang(cu@, ks[t].0, ks[t].1);
        }
    }
    r
}


proof fn lemma_va_xep_them(ks: Seq<(int, int, Seq<char>)>, p: int, q: int, w: Seq<char>)
    requires
        va_xep(ks, p),
        0 <= p <= q,
        p < q || w.len() > 0,
    ensures
        va_xep(ks.push((p, q, w)), q),
{
    let k2 = ks.push((p, q, w));
    assert forall|t: int| 0 <= t < k2.len() - 1 implies #[trigger] ke_sau(k2, t) by {
        if t < ks.len() - 1 {
            assert(ke_sau(ks, t));
        }
    }
}

proof fn lemma_va_xep_doi(ks: Seq<(int, int, Seq<char>)>, p: int, q: int, w: Seq<char>)
    requires
        va_xep(ks, p),
        ks.len() > 0,
        ks.last().1 == p,
        p <= q,
    ensures
        va_xep(ks.drop_last().push((ks.last().0, q, ks.last().2 + w)), q),
{
    let k2 = ks.drop_last().push((ks.last().0, q, ks.last().2 + w));
    assert(ks.last() == ks[ks.len() - 1]);
    assert forall|t: int| 0 <= t < k2.len() - 1 implies #[trigger] ke_sau(k2, t) by {
        assert(ke_sau(ks, t));
    }
}

proof fn lemma_va_xep_rong(ks: Seq<(int, int, Seq<char>)>, p: int, q: int)
    requires
        va_xep(ks, p),
        p <= q,
    ensures
        va_xep(ks, q),
{
}

/// Dãy khoảng vá đã chốt, thêm khoảng đang mở (nếu có).
pub open spec fn day_du(ra: Seq<(int, int, Seq<char>)>, co: bool, d: usize, c: usize, s: Seq<char>) -> Seq<
    (int, int, Seq<char>),
> {
    if co {
        ra.push((d as int, c as int, s))
    } else {
        ra
    }
}

/// Chỗ bắt đầu của mảnh thứ `i`, hoặc cuối chuỗi.
pub open spec fn dau_manh(ps: Seq<(int, int)>, i: int, het: int) -> int {
    if 0 <= i < ps.len() {
        ps[i].0
    } else {
        het
    }
}

proof fn lemma_dau_manh(ps: Seq<(int, int)>, i: int, het: int)
    requires
        lien_mach(ps, het),
        0 <= i <= ps.len(),
    ensures
        0 <= dau_manh(ps, i, het) <= het,
{
    if i < ps.len() {
        lemma_manh_tang(ps, 0, i);
        lemma_manh_tang(ps, i, ps.len() - 1);
    } else if ps.len() > 0 {
        lemma_manh_tang(ps, 0, ps.len() - 1);
    }
}

proof fn lemma_buoc_manh(ps: Seq<(int, int)>, i: int, het: int)
    requires
        lien_mach(ps, het),
        0 <= i < ps.len(),
    ensures
        dau_manh(ps, i + 1, het) == ps[i].1,
        ps[i].0 < ps[i].1 <= het,
{
    if i + 1 < ps.len() {
        assert(noi_tiep(ps, i));
    }
    lemma_manh_tang(ps, i, ps.len() - 1);
}

proof fn lemma_va_xep_chan(ks: Seq<(int, int, Seq<char>)>, het: int)
    requires
        va_xep(ks, het),
    ensures
        forall|t: int| 0 <= t < ks.len() ==> (#[trigger] ks[t]).1 <= het,
{
    assert forall|t: int| 0 <= t < ks.len() implies (#[trigger] ks[t]).1 <= het by {
        lemma_va_xep_mot(ks, het, t);
    }
}

proof fn lemma_va_xep_mot(ks: Seq<(int, int, Seq<char>)>, het: int, t: int)
    requires
        va_xep(ks, het),
        0 <= t < ks.len(),
    ensures
        ks[t].1 <= het,
    decreases ks.len() - t,
{
    if t < ks.len() - 1 {
        assert(ke_sau(ks, t));
        lemma_va_xep_mot(ks, het, t + 1);
    }
}

fn bang_khong(n: usize, m: usize) -> (r: Vec<Vec<usize>>)
    ensures
        r@.len() == n + 1,
        forall|q: int| 0 <= q <= n ==> (#[trigger] r@[q])@.len() == m + 1,
        forall|q: int, c: int| 0 <= q <= n && 0 <= c <= m ==> #[trigger] r@[q]@[c] == 0,
{
    let mut bang: Vec<Vec<usize>> = Vec::new();
    let mut i: usize = 0;
    loop
        invariant_except_break
            i <= n,
            bang@.len() == i,
        invariant
            forall|q: int| 0 <= q < bang@.len() ==> (#[trigger] bang@[q])@.len() == m + 1,
            forall|q: int, c: int| 0 <= q < bang@.len() && 0 <= c <= m ==> #[trigger] bang@[q]@[c] == 0,
        ensures
            bang@.len() == n + 1,
        decreases n - i,
    {
        let mut hang: Vec<usize> = Vec::new();
        let mut j: usize = 0;
        loop
            invariant_except_break
                j <= m,
                hang@.len() == j,
            invariant
                forall|c: int| 0 <= c < hang@.len() ==> #[trigger] hang@[c] == 0,
            ensures
                hang@.len() == m + 1,
            decreases m - j,
        {
            hang.push(0);
            if j == m {
                break;
            }
            j += 1;
        }
        bang.push(hang);
        if i == n {
            break;
        }
        i += 1;
    }
    bang
}

fn chep_hang(h: &Vec<usize>) -> (r: Vec<usize>)
    ensures
        r@ == h@,
{
    let mut r: Vec<usize> = Vec::new();
    let mut i: usize = 0;
    while i < h.len()
        invariant
            i <= h.len(),
            r@ == h@.take(i as int),
        decreases h.len() - i,
    {
        r.push(h[i]);
        assert(h@.take(i + 1) =~= h@.take(i as int).push(h@[i as int]));
        i += 1;
    }
    assert(h@.take(h.len() as int) =~= h@);
    r
}

fn doan_bang(a: &[char], a0: usize, a1: usize, b: &[char], b0: usize, b1: usize) -> (r: bool)
    requires
        a0 <= a1 <= a@.len(),
        b0 <= b1 <= b@.len(),
    ensures
        r == (a@.subrange(a0 as int, a1 as int) == b@.subrange(b0 as int, b1 as int)),
{
    if a1 - a0 != b1 - b0 {
        assert(a@.subrange(a0 as int, a1 as int).len() != b@.subrange(b0 as int, b1 as int).len());
        return false;
    }
    let mut k: usize = 0;
    while k < a1 - a0
        invariant
            a0 <= a1 <= a@.len(),
            b0 <= b1 <= b@.len(),
            a1 - a0 == b1 - b0,
            k <= a1 - a0,
            forall|t: int| 0 <= t < k ==> a@.subrange(a0 as int, a1 as int)[t] == #[trigger] b@.subrange(b0 as int, b1 as int)[t],
        decreases a1 - a0 - k,
    {
        if a[a0 + k] != b[b0 + k] {
            assert(a@.subrange(a0 as int, a1 as int)[k as int] != b@.subrange(b0 as int, b1 as int)[k as int]);
            return false;
        }
        k += 1;
    }
    assert(a@.subrange(a0 as int, a1 as int) =~= b@.subrange(b0 as int, b1 as int));
    true
}

} // verus!
