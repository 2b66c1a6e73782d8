//! Kiểu chung cho mọi phép sửa.
//!
//! Mọi tầng dò lỗi đều trả về cùng một thứ: **danh sách khoảng byte cần thay**,
//! chứ không trả về văn bản đã sửa, để tầng EPUB vá từng khoảng byte vào file
//! gốc và giữ nguyên mọi byte không đụng tới. Kèm theo là **lý do** dạng chữ,
//! vì báo cáo là thứ duy nhất người dùng có để kiểm lại.
use vstd::prelude::*;
use vstd::string::StringSliceAdditionalSpecFns;
use vstd::utf8::{encode_utf8, is_char_boundary};
use std::ops::Range;
use crate::chuoi::{bang_vi_tri, cat_doan, chuoi, ky_tu, lemma_ranh_gioi, lemma_vt_byte_tang, noi, tim_vi_tri, vt_byte};

verus! {

/// Lỗi thuộc loại gì. Báo cáo gom nhóm theo đây.
#[derive(Debug, Clone, Copy, PartialEq, Eq, Structural, Hash)]
pub enum Loai {
    /// Dựng lại Unicode: tổ hợp NFC, bỏ ký tự vô hình.
    Unicode,
    /// Văn bản còn nằm ở bảng mã cũ (TCVN3, VNI).
    BangMa,
    /// Khoảng trắng thừa, thiếu, hoặc sai loại.
    KhoangTrang,
    /// Dấu câu: khoảng trắng quanh dấu, dấu nháy, dấu ba chấm.
    DauCau,
    /// Dấu thanh đặt sai nguyên âm — `qúy`, `ngừơi`, `đựơc`. Sai thật.
    DauThanh,
    /// Kéo `hoà` về `hòa` (hoặc ngược lại) cho khớp phần còn lại của sách.
    /// Đây **không phải lỗi**: hai kiểu đặt dấu đều được công nhận.
    KieuDau,
    /// Tiếng sai cấu tạo — không ghép được từ âm đầu + vần + thanh nào.
    AmTietSai,
    /// Cặp dễ nhầm, phải nhìn ngữ cảnh mới phân được.
    DeNham,
    /// Hai tiếng dính liền vì mất khoảng trắng: `Phúlần` → `Phú lần`.
    DinhChu,
}

/// Tên hiển thị của từng loại.
pub open spec fn ten_loai(l: Loai) -> Seq<char> {
    match l {
        Loai::Unicode => "Unicode"@,
        Loai::BangMa => "Bảng mã cũ"@,
        Loai::KhoangTrang => "Khoảng trắng"@,
        Loai::DauCau => "Dấu câu"@,
        Loai::DauThanh => "Dấu thanh"@,
        Loai::KieuDau => "Kiểu đặt dấu"@,
        Loai::AmTietSai => "Tiếng sai"@,
        Loai::DeNham => "Dễ nhầm"@,
        Loai::DinhChu => "Dính chữ"@,
    }
}

impl Loai {
    /// Tên hiển thị trong báo cáo.
    pub fn ten(self) -> (r: &'static str)
        ensures
            r@ == ten_loai(self),
    {
        match self {
            Loai::Unicode => "Unicode",
            Loai::BangMa => "Bảng mã cũ",
            Loai::KhoangTrang => "Khoảng trắng",
            Loai::DauCau => "Dấu câu",
            Loai::DauThanh => "Dấu thanh",
            Loai::KieuDau => "Kiểu đặt dấu",
            Loai::AmTietSai => "Tiếng sai",
            Loai::DeNham => "Dễ nhầm",
            Loai::DinhChu => "Dính chữ",
        }
    }
}

/// Mức chắc chắn. Quyết định phép sửa có được tự áp hay không.
#[derive(Debug, Clone, Copy, PartialEq, Eq, Structural, PartialOrd, Ord)]
pub enum DoChac {
    /// Sai theo luật, không cần nhìn ngữ cảnh. Luôn tự sửa.
    Chac,
    /// Suy ra từ cấu tạo và chỉ có **một** cách sửa hợp lý. Tự sửa được.
    KhaChac,
    /// Phải nhìn ngữ cảnh mới biết.
    NgoVuc,
}

/// Một phép sửa ở dạng toán học.
pub struct SuaDoiV {
    pub dau: nat,
    pub cuoi: nat,
    pub goc: Seq<char>,
    pub thay_bang: Seq<char>,
    pub loai: Loai,
    pub do_chac: DoChac,
    pub ly_do: Seq<char>,
}

/// Một phép sửa: thay `pham_vi` trong văn bản gốc bằng `thay_bang`.
#[derive(Debug)]
pub struct SuaDoi {
    /// Khoảng **byte** trong văn bản đưa vào.
    pub pham_vi: Range<usize>,
    pub goc: String,
    pub thay_bang: String,
    pub loai: Loai,
    pub do_chac: DoChac,
    pub ly_do: String,
}

impl View for SuaDoi {
    type V = SuaDoiV;

    open spec fn view(&self) -> SuaDoiV {
        SuaDoiV {
            dau: self.pham_vi.start as nat,
            cuoi: self.pham_vi.end as nat,
            goc: self.goc@,
            thay_bang: self.thay_bang@,
            loai: self.loai,
            do_chac: self.do_chac,
            ly_do: self.ly_do@,
        }
    }
}

impl Clone for SuaDoi {
    fn clone(&self) -> (r: SuaDoi)
        ensures
            r@ == self@,
    {
        SuaDoi {
            pham_vi: self.pham_vi.start..self.pham_vi.end,
            goc: self.goc.clone(),
            thay_bang: self.thay_bang.clone(),
            loai: self.loai,
            do_chac: self.do_chac,
            ly_do: self.ly_do.clone(),
        }
    }
}

impl SuaDoi {
    /// Dựng một phép sửa, chép ba chuỗi vào.
    pub fn moi(pham_vi: Range<usize>, goc: &str, thay_bang: &str, loai: Loai, do_chac: DoChac, ly_do: &str) -> (r:
        SuaDoi)
        ensures
            r@ == (SuaDoiV {
                dau: pham_vi.start as nat,
                cuoi: pham_vi.end as nat,
                goc: goc@,
                thay_bang: thay_bang@,
                loai: loai,
                do_chac: do_chac,
                ly_do: ly_do@,
            }),
    {
        SuaDoi {
            pham_vi,
            goc: goc.to_owned(),
            thay_bang: thay_bang.to_owned(),
            loai,
            do_chac,
            ly_do: ly_do.to_owned(),
        }
    }

    /// Phép sửa này có thật sự đổi gì không.
    pub fn co_doi(&self) -> (r: bool)
        ensures
            r == (self.goc@ != self.thay_bang@),
    {
        self.goc != self.thay_bang
    }
}

/// Chèn `x` vào sau mọi phần tử có khoá không lớn hơn khoá của nó.
pub open spec fn chen_sap(s: Seq<SuaDoiV>, x: SuaDoiV) -> Seq<SuaDoiV>
    decreases s.len(),
{
    if s.len() == 0 {
        seq![x]
    } else if truoc_khoa(x, s.last()) {
        chen_sap(s.drop_last(), x).push(s.last())
    } else {
        s.push(x)
    }
}

/// Khoá `(đầu, cuối)` của `a` nhỏ hơn hẳn khoá của `b`.
pub open spec fn truoc_khoa(a: SuaDoiV, b: SuaDoiV) -> bool {
    a.dau < b.dau || (a.dau == b.dau && a.cuoi < b.cuoi)
}

/// Sắp ổn định theo khoá `(đầu, cuối)`: cùng khoá thì giữ thứ tự ban đầu.
pub open spec fn sap_xep(s: Seq<SuaDoiV>) -> Seq<SuaDoiV>
    decreases s.len(),
{
    if s.len() == 0 {
        s
    } else {
        chen_sap(sap_xep(s.drop_last()), s.last())
    }
}

/// Vị trí byte `p` là ranh giới ký tự của văn bản `g`.
pub open spec fn ranh_gioi(g: Seq<char>, p: int) -> bool {
    is_char_boundary(encode_utf8(g), p)
}

/// Chỉ số ký tự bắt đầu ở byte `p` (khi `p` là ranh giới).
pub open spec fn chi_so(g: Seq<char>, p: int) -> int {
    choose|k: int| 0 <= k <= g.len() && vt_byte(g, k) == p
}

/// Phần văn bản giữa hai ranh giới byte.
pub open spec fn doan_byte(g: Seq<char>, a: int, b: int) -> Seq<char> {
    g.subrange(chi_so(g, a), chi_so(g, b))
}

/// Trạng thái khi áp lần lượt: (chữ đã dựng, byte cuối đã dùng, số phép đã áp).
pub open spec fn ap_mot(g: Seq<char>, st: (Seq<char>, int, nat), s: SuaDoiV) -> (Seq<char>, int, nat) {
    if s.dau < st.1 || s.cuoi > encode_utf8(g).len() || !ranh_gioi(g, s.dau as int) || !ranh_gioi(g, s.cuoi as int) {
        st
    } else {
        (st.0 + doan_byte(g, st.1, s.dau as int) + s.thay_bang, s.cuoi as int, st.2 + 1)
    }
}

/// Áp lần lượt các phép sửa `ds[..n]`.
pub open spec fn ap_den(g: Seq<char>, ds: Seq<SuaDoiV>, n: int) -> (Seq<char>, int, nat)
    decreases n,
{
    if n <= 0 {
        (seq![], 0, 0)
    } else {
        ap_mot(g, ap_den(g, ds, n - 1), ds[n - 1])
    }
}

/// Kết quả áp một danh sách phép sửa **đã sắp**: văn bản mới và số phép áp được.
pub open spec fn ap_spec(g: Seq<char>, ds: Seq<SuaDoiV>) -> (Seq<char>, nat) {
    let st = ap_den(g, ds, ds.len() as int);
    (st.0 + doan_byte(g, st.1, encode_utf8(g).len() as int), st.2)
}

/// Số phép áp được trong `ds[..n]` không quá `n`.
pub proof fn lemma_ap_den_dem(g: Seq<char>, ds: Seq<SuaDoiV>, n: int)
    requires
        0 <= n,
    ensures
        ap_den(g, ds, n).2 <= n,
    decreases n,
{
    if n > 0 {
        lemma_ap_den_dem(g, ds, n - 1);
    }
}


/// Dãy đã sắp theo khoá `(đầu, cuối)`: không phần tử nào có khoá nhỏ hơn hẳn một
/// phần tử đứng trước nó.
pub open spec fn da_sap(r: Seq<SuaDoiV>) -> bool {
    forall|i: int, j: int| 0 <= i < j < r.len() ==> !truoc_khoa(#[trigger] r[j], #[trigger] r[i])
}

proof fn lemma_chen_sap_ms(r: Seq<SuaDoiV>, x: SuaDoiV)
    ensures
        chen_sap(r, x).to_multiset() == r.to_multiset().insert(x),
    decreases r.len(),
{
    broadcast use vstd::seq_lib::group_to_multiset_ensures;
    broadcast use vstd::multiset::group_multiset_axioms;
    if r.len() == 0 {
        assert(seq![x] =~= r.push(x));
    } else if truoc_khoa(x, r.last()) {
        let d = r.drop_last();
        lemma_chen_sap_ms(d, x);
        assert(r =~= d.push(r.last()));
        assert(chen_sap(r, x).to_multiset() =~= r.to_multiset().insert(x));
    }
}

proof fn lemma_sap_xep_ms(s: Seq<SuaDoiV>)
    ensures
        sap_xep(s).to_multiset() == s.to_multiset(),
    decreases s.len(),
{
    broadcast use vstd::seq_lib::group_to_multiset_ensures;
    if s.len() > 0 {
        lemma_sap_xep_ms(s.drop_last());
        lemma_chen_sap_ms(sap_xep(s.drop_last()), s.last());
        assert(s =~= s.drop_last().push(s.last()));
    }
}

proof fn lemma_chen_sap_sap(r: Seq<SuaDoiV>, x: SuaDoiV)
    requires
        da_sap(r),
    ensures
        da_sap(chen_sap(r, x)),
    decreases r.len(),
{
    broadcast use vstd::seq_lib::group_to_multiset_ensures;
    broadcast use vstd::multiset::group_multiset_axioms;
    if r.len() == 0 {
    } else if !truoc_khoa(x, r.last()) {
        let c = r.push(x);
        assert forall|i: int, j: int| 0 <= i < j < c.len() implies !truoc_khoa(#[trigger] c[j], #[trigger] c[i]) by {
            if j == c.len() - 1 {
                if i < r.len() - 1 {
                    assert(!truoc_khoa(r[r.len() - 1], r[i]));
                }
            } else {
                assert(c[i] == r[i] && c[j] == r[j]);
            }
        }
    } else {
        let d = r.drop_last();
        let l = r.last();
        assert(da_sap(d)) by {
            assert forall|i: int, j: int| 0 <= i < j < d.len() implies !truoc_khoa(#[trigger] d[j], #[trigger] d[i]) by {
                assert(d[i] == r[i] && d[j] == r[j]);
            }
        }
        lemma_chen_sap_sap(d, x);
        lemma_chen_sap_ms(d, x);
        let e = chen_sap(d, x);
        let c = e.push(l);
        assert forall|i: int, j: int| 0 <= i < j < c.len() implies !truoc_khoa(#[trigger] c[j], #[trigger] c[i]) by {
            if j == c.len() - 1 {
                assert(c[i] == e[i]);
                assert(e.contains(e[i]));
                assert(e.to_multiset().count(e[i]) > 0);
                if e[i] != x {
                    assert(d.to_multiset().count(e[i]) > 0);
                    assert(d.contains(e[i]));
                    let q = choose|q: int| 0 <= q < d.len() && d[q] == e[i];
                    assert(r[q] == d[q]);
                    assert(!truoc_khoa(r[r.len() - 1], r[q]));
                }
            } else {
                assert(c[i] == e[i] && c[j] == e[j]);
            }
        }
    }
}

proof fn lemma_sap_xep_sap(s: Seq<SuaDoiV>)
    ensures
        da_sap(sap_xep(s)),
    decreases s.len(),
{
    if s.len() > 0 {
        lemma_sap_xep_sap(s.drop_last());
        lemma_chen_sap_sap(sap_xep(s.drop_last()), s.last());
    }
}

/// Trong `a`, khoá `(đầu, cuối)` xác định phần tử.
pub open spec fn khoa_xac_dinh(a: Seq<SuaDoiV>) -> bool {
    forall|x: SuaDoiV, y: SuaDoiV|
        #![trigger a.contains(x), a.contains(y)]
        a.contains(x) && a.contains(y) && x.dau == y.dau && x.cuoi == y.cuoi ==> x == y
}

proof fn lemma_sap_duy_nhat(a: Seq<SuaDoiV>, b: Seq<SuaDoiV>)
    requires
        a.to_multiset() == b.to_multiset(),
        da_sap(a),
        da_sap(b),
        khoa_xac_dinh(a),
    ensures
        a == b,
    decreases a.len(),
{
    broadcast use vstd::seq_lib::group_to_multiset_ensures;
    broadcast use vstd::multiset::group_multiset_axioms;
    if a.len() == 0 {
        vstd::seq_lib::to_multiset_len(a);
        vstd::seq_lib::to_multiset_len(b);
        assert(b =~= a);
    } else {
        vstd::seq_lib::to_multiset_len(a);
        vstd::seq_lib::to_multiset_len(b);
        assert(b.len() == a.len());
        let x = a[0];
        let y = b[0];
        assert(a.contains(x));
        assert(b.contains(y));
        assert(b.to_multiset().count(x) > 0);
        assert(b.contains(x));
        assert(a.to_multiset().count(y) > 0);
        assert(a.contains(y));
        let jb = choose|j: int| 0 <= j < b.len() && b[j] == x;
        let ja = choose|j: int| 0 <= j < a.len() && a[j] == y;
        if jb > 0 {
            assert(!truoc_khoa(b[jb], b[0]));
        }
        if ja > 0 {
            assert(!truoc_khoa(a[ja], a[0]));
        }
        assert(x == y);
        let a1 = a.drop_first();
        let b1 = b.drop_first();
        assert(a.remove(0) =~= a1);
        assert(b.remove(0) =~= b1);
        assert(a1.to_multiset() == b1.to_multiset());
        assert(da_sap(a1)) by {
            assert forall|i: int, j: int| 0 <= i < j < a1.len() implies !truoc_khoa(#[trigger] a1[j], #[trigger] a1[i]) by {
                assert(a1[i] == a[i + 1] && a1[j] == a[j + 1]);
            }
        }
        assert(da_sap(b1)) by {
            assert forall|i: int, j: int| 0 <= i < j < b1.len() implies !truoc_khoa(#[trigger] b1[j], #[trigger] b1[i]) by {
                assert(b1[i] == b[i + 1] && b1[j] == b[j + 1]);
            }
        }
        assert(khoa_xac_dinh(a1)) by {
            assert forall|u: SuaDoiV, v: SuaDoiV|
                a1.contains(u) && a1.contains(v) && u.dau == v.dau && u.cuoi == v.cuoi implies u == v by {
                let iu = choose|i: int| 0 <= i < a1.len() && a1[i] == u;
                let iv = choose|i: int| 0 <= i < a1.len() && a1[i] == v;
                assert(a.contains(a[iu + 1]) && a.contains(a[iv + 1]));
            }
        }
        lemma_sap_duy_nhat(a1, b1);
        assert(a =~= b) by {
            assert forall|i: int| 0 <= i < a.len() implies a[i] == b[i] by {
                if i > 0 {
                    assert(a[i] == a1[i - 1] && b[i] == b1[i - 1]);
                }
            }
        }
    }
}

/// Áp một danh sách phép sửa không phụ thuộc thứ tự ban đầu của nó: hai danh
/// sách gồm cùng các phép (đổi chỗ cho nhau), khoá `(đầu, cuối)` đôi một khác
/// nhau, sắp ra cùng một dãy và vì thế áp ra cùng một kết quả.
pub proof fn lemma_ap_khong_phu_thuoc_thu_tu(g: Seq<char>, s: Seq<SuaDoiV>, p: Seq<SuaDoiV>)
    requires
        s.to_multiset() == p.to_multiset(),
        forall|i: int, j: int| 0 <= i < j < s.len() ==> (#[trigger] s[i]).dau != (#[trigger] s[j]).dau || s[i].cuoi != s[j].cuoi,
    ensures
        sap_xep(s) == sap_xep(p),
        ap_spec(g, sap_xep(s)) == ap_spec(g, sap_xep(p)),
{
    broadcast use vstd::seq_lib::group_to_multiset_ensures;
    lemma_sap_xep_ms(s);
    lemma_sap_xep_ms(p);
    lemma_sap_xep_sap(s);
    lemma_sap_xep_sap(p);
    let a = sap_xep(s);
    assert(khoa_xac_dinh(a)) by {
        assert forall|x: SuaDoiV, y: SuaDoiV|
            a.contains(x) && a.contains(y) && x.dau == y.dau && x.cuoi == y.cuoi implies x == y by {
            assert(a.to_multiset().count(x) > 0 && a.to_multiset().count(y) > 0);
            assert(s.contains(x) && s.contains(y));
            let i = choose|i: int| 0 <= i < s.len() && s[i] == x;
            let j = choose|j: int| 0 <= j < s.len() && s[j] == y;
            if i < j {
                assert(s[i].dau != s[j].dau || s[i].cuoi != s[j].cuoi);
            } else if j < i {
                assert(s[j].dau != s[i].dau || s[j].cuoi != s[i].cuoi);
            }
        }
    }
    lemma_sap_duy_nhat(a, sap_xep(p));
}

/// Dãy các phép sửa ở dạng toán học.
pub open spec fn dsv(v: Seq<SuaDoi>) -> Seq<SuaDoiV> {
    v.map_values(|s: SuaDoi| s@)
}

fn sap_xep_ds(sua: &mut Vec<SuaDoi>)
    ensures
        dsv(final(sua)@) == sap_xep(dsv(old(sua)@)),
{
    let ghost goc = dsv(sua@);
    let mut cu: Vec<SuaDoi> = Vec::new();
    std::mem::swap(&mut cu, sua);
    let mut ra: Vec<SuaDoi> = Vec::new();
    let ghost mut k: int = 0;
    assert(goc.take(0) =~= Seq::<SuaDoiV>::empty());
    assert(dsv(cu@) =~= goc.skip(0));
    while cu.len() > 0
        invariant
            0 <= k <= goc.len(),
            cu@.len() == goc.len() - k,
            dsv(cu@) == goc.skip(k),
            dsv(ra@) == sap_xep(goc.take(k)),
        decreases cu.len(),
    {
        assert(dsv(cu@)[0] == goc[k]);
        let ghost cu_cu = cu@;
        let x = cu.remove(0);
        assert(x@ == goc[k]);
        assert(cu@ =~= cu_cu.subrange(1, cu_cu.len() as int));
        assert forall|q: int| 0 <= q < cu@.len() implies #[trigger] dsv(cu@)[q] == goc.skip(k + 1)[q] by {
            assert(dsv(cu_cu)[q + 1] == goc.skip(k)[q + 1]);
        }
        assert(dsv(cu@) =~= goc.skip(k + 1));
        assert(goc.take(k + 1).drop_last() =~= goc.take(k));
        chen_vao(&mut ra, x);
        proof {
            k = k + 1;
        }
    }
    assert(goc.take(k) =~= goc);
    *sua = ra;
}

proof fn lemma_chen_sap_tach(s: Seq<SuaDoiV>, x: SuaDoiV, p: int)
    requires
        0 <= p <= s.len(),
        p > 0 ==> !truoc_khoa(x, s[p - 1]),
        forall|q: int| p <= q < s.len() ==> truoc_khoa(x, #[trigger] s[q]),
    ensures
        chen_sap(s, x) == s.insert(p, x),
    decreases s.len(),
{
    if s.len() == 0 {
        assert(s.insert(p, x) =~= seq![x]);
    } else if p == s.len() {
        assert(s.insert(p, x) =~= s.push(x));
    } else {
        lemma_chen_sap_tach(s.drop_last(), x, p);
        assert(s.insert(p, x) =~= s.drop_last().insert(p, x).push(s.last()));
    }
}

fn chen_vao(ra: &mut Vec<SuaDoi>, x: SuaDoi)
    ensures
        dsv(final(ra)@) == chen_sap(dsv(old(ra)@), x@),
{
    let ghost s = dsv(ra@);
    let mut p: usize = ra.len();
    while p > 0 && !(x.pham_vi.start > ra[p - 1].pham_vi.start || (x.pham_vi.start == ra[p - 1].pham_vi.start
        && x.pham_vi.end >= ra[p - 1].pham_vi.end))
        invariant
            p <= ra@.len(),
            s == dsv(ra@),
            forall|q: int| p <= q < s.len() ==> truoc_khoa(x@, #[trigger] s[q]),
        decreases p,
    {
        p -= 1;
    }
    proof {
        lemma_chen_sap_tach(s, x@, p as int);
    }
    ra.insert(p, x);
    assert(dsv(ra@) =~= s.insert(p as int, x@));
}

/// Áp một danh sách phép sửa vào văn bản.
///
/// Danh sách **không cần** sắp sẵn — nó được sắp ổn định theo `(đầu, cuối)` ngay
/// tại chỗ. Phép nào chồng lên phép trước, trỏ ra ngoài văn bản, hoặc rơi vào
/// giữa một ký tự nhiều byte thì bị bỏ. Trả về văn bản mới và số phép thật sự
/// áp được.
pub fn ap_dung(goc: &str, sua: &mut Vec<SuaDoi>) -> (r: (String, usize))
    ensures
        dsv(final(sua)@) == sap_xep(dsv(old(sua)@)),
        r.0@ == ap_spec(goc@, dsv(final(sua)@)).0,
        r.1 == ap_spec(goc@, dsv(final(sua)@)).1,
        r.1 <= old(sua)@.len(),
        doi_mot_roi_nhau(dsv(old(sua)@)) && (forall|i: int|
            0 <= i < old(sua)@.len() ==> nam_gon(goc@, #[trigger] dsv(old(sua)@)[i])) ==> r.1 == old(sua)@.len(),
{
    proof {
        if doi_mot_roi_nhau(dsv(sua@)) && (forall|i: int| 0 <= i < sua@.len() ==> nam_gon(goc@, #[trigger] dsv(sua@)[i])) {
            lemma_ap_du(goc@, dsv(sua@));
        }
    }
    sap_xep_ds(sua);
    proof {
        lemma_sap_xep_dai(dsv(old(sua)@));
        lemma_ap_den_dem(goc@, dsv(sua@), sua@.len() as int);
    }
    let g = ky_tu(goc);
    let b = bang_vi_tri(goc);
    let tong = goc.as_bytes().len();
    proof {
        assert forall|i: int, j: int| 0 <= i < j < b@.len() implies b@[i] < b@[j] by {
            lemma_vt_byte_tang(goc@, i, j);
        }
    }
    let ghost ds = dsv(sua@);
    let mut ra: Vec<char> = Vec::new();
    let mut cuoi: usize = 0;
    let mut ki: usize = 0;
    let mut dem: usize = 0;
    let mut i: usize = 0;
    proof {
        assert(vt_byte(goc@, 0) == 0) by {
            assert(goc@.take(0) =~= Seq::<char>::empty());
        }
        lemma_chi_so(goc@, 0);
    }
    while i < sua.len()
        invariant
            g@ == goc@,
            ds == dsv(sua@),
            tong == encode_utf8(goc@).len(),
            b@.len() == goc@.len() + 1,
            forall|k: int| 0 <= k <= goc@.len() ==> #[trigger] b@[k] == vt_byte(goc@, k),
            forall|i: int, j: int| 0 <= i < j < b@.len() ==> b@[i] < b@[j],
            i <= sua.len(),
            dem <= i,
            ki <= goc@.len(),
            cuoi == vt_byte(goc@, ki as int),
            chi_so(goc@, cuoi as int) == ki,
            ap_den(goc@, ds, i as int) == (ra@, cuoi as int, dem as nat),
        decreases sua.len() - i,
    {
        let s = &sua[i];
        let dau = s.pham_vi.start;
        let het = s.pham_vi.end;
        if dau >= cuoi && het <= tong {
            let vd = tim_vi_tri(&b, dau);
            let vc = tim_vi_tri(&b, het);
            proof {
                lemma_ranh_gioi(goc@, dau as int);
                lemma_ranh_gioi(goc@, het as int);
            }
            match (vd, vc) {
                (Some(kd), Some(kc)) => {
                    proof {
                        lemma_chi_so(goc@, kd as int);
                        lemma_chi_so(goc@, kc as int);
                        if kd < ki {
                            lemma_vt_byte_tang(goc@, kd as int, ki as int);
                        }
                    }
                    assert(ki <= kd);
                    let doan = cat_doan(&g, ki, kd);
                    let moi = ky_tu(s.thay_bang.as_str());
                    let ghost cu_ra = ra@;
                    ra = noi(&ra, &doan);
                    ra = noi(&ra, &moi);
                    assert(ra@ == cu_ra + doan_byte(goc@, cuoi as int, dau as int) + ds[i as int].thay_bang);
                    cuoi = het;
                    ki = kc;
                    dem = dem + 1;
                },
                _ => {
                    proof {
                        if ranh_gioi(goc@, dau as int) {
                            let k = choose|k: int| 0 <= k <= goc@.len() && #[trigger] vt_byte(goc@, k) == dau;
                            assert(b@[k] == dau);
                        }
                        if ranh_gioi(goc@, het as int) {
                            let k = choose|k: int| 0 <= k <= goc@.len() && #[trigger] vt_byte(goc@, k) == het;
                            assert(b@[k] == het);
                        }
                    }
                },
            }
        }
        i += 1;
    }
    proof {
        lemma_vt_byte_tang(goc@, ki as int, goc@.len() as int);
        lemma_chi_so(goc@, goc@.len() as int);
        assert(goc@.take(goc@.len() as int) =~= goc@);
    }
    let duoi = cat_doan(&g, ki, g.len());
    let ket = noi(&ra, &duoi);
    (chuoi(&ket), dem)
}

/// Ký tự thứ `k` là chỉ số duy nhất có vị trí byte ấy.
pub proof fn lemma_chi_so(g: Seq<char>, k: int)
    requires
        0 <= k <= g.len(),
    ensures
        chi_so(g, vt_byte(g, k) as int) == k,
{
    let p = vt_byte(g, k) as int;
    assert(exists|j: int| 0 <= j <= g.len() && vt_byte(g, j) == p);
    let j = chi_so(g, p);
    if j < k {
        lemma_vt_byte_tang(g, j, k);
    } else if k < j {
        lemma_vt_byte_tang(g, k, j);
    }
}


/// Chỉ số ký tự bắt đầu ở byte `p`, tra trong bảng vị trí `b` của văn bản `g`.
pub(crate) fn chi_so_exec(b: &Vec<usize>, p: usize, Ghost(g): Ghost<Seq<char>>) -> (r: usize)
    requires
        b@.len() == g.len() + 1,
        forall|k: int| 0 <= k <= g.len() ==> #[trigger] b@[k] == vt_byte(g, k),
        ranh_gioi(g, p as int),
    ensures
        r as int == chi_so(g, p as int),
        r <= g.len(),
        vt_byte(g, r as int) == p,
{
    proof {
        lemma_ranh_gioi(g, p as int);
        assert forall|i: int, j: int| 0 <= i < j < b@.len() implies b@[i] < b@[j] by {
            lemma_vt_byte_tang(g, i, j);
        }
    }
    let k = tim_vi_tri(b.as_slice(), p);
    match k {
        Some(k) => {
            proof {
                lemma_chi_so(g, k as int);
            }
            k
        },
        None => {
            proof {
                let j = choose|j: int| 0 <= j <= g.len() && #[trigger] vt_byte(g, j) == p;
                assert(b@[j] == p);
            }
            0
        },
    }
}


proof fn lemma_chen_sap_dai(s: Seq<SuaDoiV>, x: SuaDoiV)
    ensures
        chen_sap(s, x).len() == s.len() + 1,
    decreases s.len(),
{
    if s.len() > 0 && truoc_khoa(x, s.last()) {
        lemma_chen_sap_dai(s.drop_last(), x);
    }
}

/// Sắp xếp không thêm bớt phép sửa nào.
pub proof fn lemma_sap_xep_dai(s: Seq<SuaDoiV>)
    ensures
        sap_xep(s).len() == s.len(),
    decreases s.len(),
{
    if s.len() > 0 {
        lemma_sap_xep_dai(s.drop_last());
        lemma_chen_sap_dai(sap_xep(s.drop_last()), s.last());
    }
}


/// Phép sửa `x` nằm gọn trong văn bản `g`: `đầu <= cuối <= số byte`, cả hai đầu
/// là ranh giới ký tự.
pub open spec fn nam_gon(g: Seq<char>, x: SuaDoiV) -> bool {
    x.dau <= x.cuoi <= encode_utf8(g).len() && ranh_gioi(g, x.dau as int) && ranh_gioi(g, x.cuoi as int)
}

/// Hai phép sửa không chồng lên nhau.
pub open spec fn roi_nhau(x: SuaDoiV, y: SuaDoiV) -> bool {
    x.cuoi <= y.dau || y.cuoi <= x.dau
}

/// Các phép sửa ở hai vị trí khác nhau trong `s` đều rời nhau.
pub open spec fn doi_mot_roi_nhau(s: Seq<SuaDoiV>) -> bool {
    forall|i: int, j: int| 0 <= i < s.len() && 0 <= j < s.len() && i != j ==> roi_nhau(#[trigger] s[i], #[trigger] s[j])
}

proof fn lemma_chen_sap_roi(r: Seq<SuaDoiV>, x: SuaDoiV)
    requires
        doi_mot_roi_nhau(r),
        forall|i: int| 0 <= i < r.len() ==> roi_nhau(#[trigger] r[i], x),
    ensures
        doi_mot_roi_nhau(chen_sap(r, x)),
    decreases r.len(),
{
    broadcast use vstd::seq_lib::group_to_multiset_ensures;
    broadcast use vstd::multiset::group_multiset_axioms;
    if r.len() == 0 {
    } else if truoc_khoa(x, r.last()) {
        let d = r.drop_last();
        let l = r.last();
        assert forall|i: int, j: int| 0 <= i < d.len() && 0 <= j < d.len() && i != j implies roi_nhau(#[trigger] d[i], #[trigger] d[j]) by {
            assert(d[i] == r[i] && d[j] == r[j]);
        }
        lemma_chen_sap_roi(d, x);
        let c = chen_sap(d, x);
        lemma_chen_sap_ms(d, x);
        lemma_chen_sap_dai(d, x);
        assert forall|i: int| 0 <= i < c.len() implies roi_nhau(#[trigger] c[i], l) by {
            assert(c.contains(c[i]));
            assert(c.to_multiset().count(c[i]) > 0);
            if c[i] != x {
                assert(d.to_multiset().count(c[i]) > 0);
                assert(d.contains(c[i]));
                let k = choose|k: int| 0 <= k < d.len() && d[k] == c[i];
                assert(r[k] == d[k] && r[r.len() - 1] == l);
            } else {
                assert(roi_nhau(r[r.len() - 1], x));
            }
        }
        let e = c.push(l);
        assert forall|i: int, j: int| 0 <= i < e.len() && 0 <= j < e.len() && i != j implies roi_nhau(#[trigger] e[i], #[trigger] e[j]) by {
            if i == c.len() {
                assert(roi_nhau(c[j], l));
            } else if j == c.len() {
                assert(roi_nhau(c[i], l));
            } else {
                assert(e[i] == c[i] && e[j] == c[j]);
            }
        }
    } else {
        let e = r.push(x);
        assert forall|i: int, j: int| 0 <= i < e.len() && 0 <= j < e.len() && i != j implies roi_nhau(#[trigger] e[i], #[trigger] e[j]) by {
            if i == r.len() {
                assert(roi_nhau(r[j], x));
            } else if j == r.len() {
                assert(roi_nhau(r[i], x));
            } else {
                assert(e[i] == r[i] && e[j] == r[j]);
            }
        }
    }
}

proof fn lemma_sap_xep_roi(g: Seq<char>, s: Seq<SuaDoiV>)
    requires
        doi_mot_roi_nhau(s),
        forall|i: int| 0 <= i < s.len() ==> nam_gon(g, #[trigger] s[i]),
    ensures
        doi_mot_roi_nhau(sap_xep(s)),
        forall|i: int| 0 <= i < sap_xep(s).len() ==> nam_gon(g, #[trigger] sap_xep(s)[i]),
    decreases s.len(),
{
    broadcast use vstd::seq_lib::group_to_multiset_ensures;
    broadcast use vstd::multiset::group_multiset_axioms;
    if s.len() > 0 {
        let d = s.drop_last();
        let x = s.last();
        assert forall|i: int, j: int| 0 <= i < d.len() && 0 <= j < d.len() && i != j implies roi_nhau(#[trigger] d[i], #[trigger] d[j]) by {
            assert(d[i] == s[i] && d[j] == s[j]);
        }
        assert forall|i: int| 0 <= i < d.len() implies nam_gon(g, #[trigger] d[i]) by {
            assert(d[i] == s[i]);
        }
        lemma_sap_xep_roi(g, d);
        let r = sap_xep(d);
        lemma_sap_xep_ms(d);
        assert forall|i: int| 0 <= i < r.len() implies roi_nhau(#[trigger] r[i], x) by {
            assert(r.contains(r[i]));
            assert(r.to_multiset().count(r[i]) > 0);
            assert(d.contains(r[i]));
            let k = choose|k: int| 0 <= k < d.len() && d[k] == r[i];
            assert(s[k] == d[k] && s[s.len() - 1] == x);
        }
        lemma_chen_sap_roi(r, x);
        lemma_sap_xep_ms(s);
        assert forall|i: int| 0 <= i < sap_xep(s).len() implies nam_gon(g, #[trigger] sap_xep(s)[i]) by {
            let y = sap_xep(s)[i];
            assert(sap_xep(s).contains(y));
            assert(sap_xep(s).to_multiset().count(y) > 0);
            assert(s.contains(y));
        }
    }
}

proof fn lemma_ap_den_het(g: Seq<char>, a: Seq<SuaDoiV>, n: int)
    requires
        da_sap(a),
        doi_mot_roi_nhau(a),
        forall|i: int| 0 <= i < a.len() ==> nam_gon(g, #[trigger] a[i]),
        0 <= n <= a.len(),
    ensures
        ap_den(g, a, n).2 == n,
        ap_den(g, a, n).1 == (if n == 0 { 0int } else { a[n - 1].cuoi as int }),
    decreases n,
{
    if n > 0 {
        lemma_ap_den_het(g, a, n - 1);
        assert(nam_gon(g, a[n - 1]));
        if n > 1 {
            assert(!truoc_khoa(a[n - 1], a[n - 2]));
            assert(roi_nhau(a[n - 2], a[n - 1]));
        }
    }
}

/// Các phép sửa nằm gọn trong văn bản và đôi một không chồng lên nhau thì đều
/// được áp: số phép áp được bằng đúng số phép đưa vào.
pub proof fn lemma_ap_du(g: Seq<char>, s: Seq<SuaDoiV>)
    requires
        doi_mot_roi_nhau(s),
        forall|i: int| 0 <= i < s.len() ==> nam_gon(g, #[trigger] s[i]),
    ensures
        ap_spec(g, sap_xep(s)).1 == s.len(),
{
    lemma_sap_xep_roi(g, s);
    lemma_sap_xep_sap(s);
    lemma_sap_xep_dai(s);
    lemma_ap_den_het(g, sap_xep(s), s.len() as int);
}

} // verus!
