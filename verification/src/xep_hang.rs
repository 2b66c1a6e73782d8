//! Xếp hạng các cách sửa một tiếng sai, và bằng chứng cho cách đứng đầu.
//!
//! Phép sinh xếp ứng viên theo "khác bản gốc ít nhất", tức theo hình dạng lỗi
//! gõ. Hình dạng không phân được những ứng viên cùng giá, nên hàng xóm quyết:
//! `chúng ta` có trong từ điển, `chừ ta` thì không. Thứ tự các tiêu chí là bảng
//! typo, cụm tên riêng của sách, giữ phụ âm đầu, từ ghép, rồi mới tới giá.
use vstd::prelude::*;
use crate::bang_chu::BangChu;
use crate::chuoi::{bang_nhau, chuoi, ky_tu};
use crate::hoa_thuong::{chuoi_thuong, thuong_cua};
use crate::soat::{chep_chuoi, giu_phu_am_dau, giu_phu_am_dau_spec, khop_cum, khop_cum_spec, BangChung};
use crate::tu_dien::{co_that_spec, cum_hai, tach_manh, tach_manh_spec, TuDien};
use crate::typo::dsc;
use crate::ung_vien::{UngVien, UngVienV};

verus! {

/// Giá của một cách tách đáng tin: rẻ hơn mọi phép sửa chữ, vì nó không đổi
/// ký tự nào, chỉ thêm khoảng trắng.
pub const GIA_TACH: u32 = 3;

/// Giá của một cách tách đáng ngờ (mảnh sau mở đầu bằng nguyên âm, chuỗi gốc
/// chỉ mang một dấu thanh): đắt hơn mọi phép sửa chữ.
pub const GIA_TACH_YEU: u32 = 9;

/// Giá của cách tách `chu`, khi chuỗi gốc mang `so_dau` dấu thanh.
pub open spec fn gia_tach(chu: Seq<char>, so_dau: nat) -> nat {
    if tach_manh_spec(thuong_cua(chu)) || so_dau > 1 {
        GIA_TACH as nat
    } else {
        GIA_TACH_YEU as nat
    }
}

/// Các cách sửa chữ, nối thêm các cách tách kèm giá.
pub open spec fn them_tach(uv: Seq<UngVienV>, tach: Seq<Seq<char>>, so_dau: nat) -> Seq<UngVienV> {
    uv + tach.map_values(|c: Seq<char>| UngVienV { chu: c, gia: gia_tach(c, so_dau) })
}

/// Có ứng viên nào có thật thì bỏ mọi ứng viên không có thật; không có thì giữ cả.
pub open spec fn loc_co_that(kho: Set<Seq<char>>, uv: Seq<UngVienV>) -> Seq<UngVienV> {
    if exists|i: int| 0 <= i < uv.len() && co_that_spec(kho, (#[trigger] uv[i]).chu) {
        uv.filter(|u: UngVienV| co_that_spec(kho, u.chu))
    } else {
        uv
    }
}

/// Một ứng viên kèm bốn tiêu chí xếp hạng.
pub struct XepV {
    pub typo: nat,
    pub ten: nat,
    pub giu: nat,
    pub khop: nat,
    pub uv: UngVienV,
}

/// Ứng viên có nằm trong các đáp án của bảng typo không.
pub open spec fn khop_typo(typo: Option<Seq<Seq<char>>>, chu: Seq<char>) -> nat {
    match typo {
        Some(d) => if d.contains(thuong_cua(chu)) { 1 } else { 0 },
        None => 0,
    }
}

/// Số từ ghép trong kho `ghep` mà ứng viên dựng được với hai hàng xóm.
pub open spec fn khop_ghep(ghep: Set<Seq<char>>, truoc: Option<Seq<char>>, t: Seq<char>, sau: Option<Seq<char>>) -> nat {
    (match truoc {
        Some(p) => if ghep.contains(cum_hai(p, thuong_cua(t))) { 1nat } else { 0nat },
        None => 0nat,
    }) + (match sau {
        Some(s) => if ghep.contains(cum_hai(t, thuong_cua(s))) { 1nat } else { 0nat },
        None => 0nat,
    })
}

/// Ngữ cảnh xếp hạng một tiếng: chữ gốc, hai hàng xóm, các bảng tra.
pub struct BoiCanh {
    pub goc: Seq<char>,
    pub truoc: Option<Seq<char>>,
    pub sau: Option<Seq<char>>,
    pub cum: Set<Seq<char>>,
    pub tu_dung: Set<Seq<char>>,
    pub typo: Option<Seq<Seq<char>>>,
    pub kho: Set<Seq<char>>,
    pub ghep: Set<Seq<char>>,
}

/// Bốn tiêu chí của một ứng viên.
pub open spec fn xep_cua(b: BoiCanh, u: UngVienV) -> XepV {
    XepV {
        typo: khop_typo(b.typo, u.chu),
        ten: khop_cum_spec(b.cum, b.truoc, u.chu, b.sau),
        giu: if giu_phu_am_dau_spec(b.goc, u.chu) { 1 } else { 0 },
        khop: khop_ghep(b.ghep, b.truoc, u.chu, b.sau),
        uv: u,
    }
}

/// `a` đứng **trước hẳn** `b`: so lần lượt typo, cụm, giữ phụ âm đầu, từ ghép
/// (lớn hơn đứng trước), rồi giá (nhỏ hơn đứng trước).
pub open spec fn dung_truoc(a: XepV, b: XepV) -> bool {
    a.typo > b.typo || (a.typo == b.typo && (a.ten > b.ten || (a.ten == b.ten && (a.giu > b.giu || (a.giu
        == b.giu && (a.khop > b.khop || (a.khop == b.khop && a.uv.gia < b.uv.gia)))))))
}

/// Chèn `x` vào sau mọi phần tử không đứng sau nó.
pub open spec fn chen_xep(r: Seq<XepV>, x: XepV) -> Seq<XepV>
    decreases r.len(),
{
    if r.len() == 0 {
        seq![x]
    } else if !dung_truoc(x, r.last()) {
        r.push(x)
    } else {
        chen_xep(r.drop_last(), x).push(r.last())
    }
}

/// Xếp ổn định theo [`dung_truoc`]: phần tử ngang nhau giữ thứ tự ban đầu.
pub open spec fn xep_on_dinh(s: Seq<XepV>) -> Seq<XepV>
    decreases s.len(),
{
    if s.len() == 0 {
        seq![]
    } else {
        chen_xep(xep_on_dinh(s.drop_last()), s.last())
    }
}

/// Bằng chứng cho ứng viên đầu bảng `g[0]`.
pub open spec fn bang_chung_spec(g: Seq<XepV>, b: BoiCanh) -> BangChung {
    let typo_chac = (b.typo matches Some(d) && d.len() == 1) && g.len() > 0 && g[0].typo > 0;
    let cum_rieng = g.len() > 0 && g[0].ten > 0 && (g.len() == 1 || (g[0].typo, g[0].ten, g[0].uv.gia) != (
        g[1].typo,
        g[1].ten,
        g[1].uv.gia,
    ));
    let tu_ghep = g.len() > 0 && g[0].khop > 0 && (g.len() == 1 || (
        g[0].typo,
        g[0].ten,
        g[0].giu,
        g[0].khop,
        g[0].uv.gia,
    ) != (g[1].typo, g[1].ten, g[1].giu, g[1].khop, g[1].uv.gia));
    let dau_phu = g.len() > 0 && g[0].uv.gia == 2 && co_that_spec(b.kho, g[0].uv.chu) && (b.tu_dung.is_empty()
        || b.tu_dung.contains(thuong_cua(g[0].uv.chu))) && (g.len() == 1 || g[1].uv.gia > g[0].uv.gia);
    if typo_chac {
        BangChung::Typo
    } else if cum_rieng {
        BangChung::CumTenRieng
    } else if tu_ghep {
        BangChung::TuGhep
    } else if dau_phu {
        BangChung::DauPhu
    } else {
        BangChung::Khong
    }
}

/// Kết quả của [`xep_hang_ung_vien`]: các ứng viên đã xếp, và bằng chứng.
pub open spec fn xep_hang_spec(b: BoiCanh, uv: Seq<UngVienV>, tach: Seq<Seq<char>>, so_dau: nat) -> (
    Seq<Seq<char>>,
    BangChung,
) {
    let tat_ca = them_tach(uv, tach, so_dau);
    if tat_ca.len() == 0 {
        (seq![], BangChung::Khong)
    } else {
        let l = loc_co_that(b.kho, tat_ca);
        let g = xep_on_dinh(l.map_values(|u: UngVienV| xep_cua(b, u)));
        (g.map_values(|x: XepV| x.uv.chu), bang_chung_spec(g, b))
    }
}

/// Dãy đã theo thứ tự [`dung_truoc`]: không phần tử nào đứng trước hẳn một phần
/// tử đứng trước nó.
pub open spec fn co_thu_tu(g: Seq<XepV>) -> bool {
    forall|i: int, j: int| 0 <= i < j < g.len() ==> !dung_truoc(#[trigger] g[j], #[trigger] g[i])
}

proof fn lemma_chen_xep_gom(r: Seq<XepV>, x: XepV)
    ensures
        chen_xep(r, x).len() == r.len() + 1,
        forall|k: int| 0 <= k < chen_xep(r, x).len() ==> #[trigger] chen_xep(r, x)[k] == x || r.contains(
            chen_xep(r, x)[k],
        ),
    decreases r.len(),
{
    if r.len() > 0 && dung_truoc(x, r.last()) {
        let d = r.drop_last();
        lemma_chen_xep_gom(d, x);
        let c = chen_xep(r, x);
        assert forall|k: int| 0 <= k < c.len() implies #[trigger] c[k] == x || r.contains(c[k]) by {
            if k < c.len() - 1 {
                assert(c[k] == chen_xep(d, x)[k]);
                if chen_xep(d, x)[k] != x {
                    let q = choose|q: int| 0 <= q < d.len() && d[q] == chen_xep(d, x)[k];
                    assert(r[q] == d[q]);
                }
            } else {
                assert(c[k] == r[r.len() - 1]);
            }
        }
    } else if r.len() > 0 {
        let c = chen_xep(r, x);
        assert forall|k: int| 0 <= k < c.len() implies #[trigger] c[k] == x || r.contains(c[k]) by {
            if k < r.len() {
                assert(c[k] == r[k]);
            }
        }
    }
}

proof fn lemma_chen_xep_thu_tu(r: Seq<XepV>, x: XepV)
    requires
        co_thu_tu(r),
    ensures
        co_thu_tu(chen_xep(r, x)),
    decreases r.len(),
{
    if r.len() == 0 {
    } else if !dung_truoc(x, r.last()) {
        let c = r.push(x);
        assert forall|i: int, j: int| 0 <= i < j < c.len() implies !dung_truoc(#[trigger] c[j], #[trigger] c[i]) by {
            if j == c.len() - 1 {
                if i < r.len() - 1 {
                    assert(!dung_truoc(r[r.len() - 1], r[i]));
                }
            } else {
                assert(c[i] == r[i] && c[j] == r[j]);
            }
        }
    } else {
        let d = r.drop_last();
        let l = r.last();
        assert(co_thu_tu(d)) by {
            assert forall|i: int, j: int| 0 <= i < j < d.len() implies !dung_truoc(#[trigger] d[j], #[trigger] d[i]) by {
                assert(d[i] == r[i] && d[j] == r[j]);
            }
        }
        lemma_chen_xep_thu_tu(d, x);
        lemma_chen_xep_gom(d, x);
        let e = chen_xep(d, x);
        let c = e.push(l);
        assert forall|i: int, j: int| 0 <= i < j < c.len() implies !dung_truoc(#[trigger] c[j], #[trigger] c[i]) by {
            if j == c.len() - 1 {
                assert(c[i] == e[i]);
                if e[i] != x {
                    let q = choose|q: int| 0 <= q < d.len() && d[q] == e[i];
                    assert(r[q] == d[q]);
                    assert(!dung_truoc(r[r.len() - 1], r[q]));
                }
            } else {
                assert(c[i] == e[i] && c[j] == e[j]);
            }
        }
    }
}

/// Các ứng viên ra khỏi phép xếp theo đúng thứ tự của năm tiêu chí: không ứng
/// viên nào có (typo, cụm, giữ phụ âm đầu, từ ghép) cao hơn, hay bằng mà giá rẻ
/// hơn, một ứng viên đứng trước nó.
pub proof fn lemma_xep_on_dinh_co_thu_tu(s: Seq<XepV>)
    ensures
        co_thu_tu(xep_on_dinh(s)),
        xep_on_dinh(s).len() == s.len(),
    decreases s.len(),
{
    if s.len() > 0 {
        lemma_xep_on_dinh_co_thu_tu(s.drop_last());
        lemma_chen_xep_thu_tu(xep_on_dinh(s.drop_last()), s.last());
        lemma_chen_xep_gom(xep_on_dinh(s.drop_last()), s.last());
    }
}

/// Chuỗi tuỳ chọn ở dạng toán học.
pub open spec fn opt_chu(o: Option<&str>) -> Option<Seq<char>> {
    match o {
        Some(p) => Some(p@),
        None => None,
    }
}

/// Đáp án bảng typo ở dạng toán học.
pub open spec fn opt_typo(o: Option<&[String]>) -> Option<Seq<Seq<char>>> {
    match o {
        Some(d) => Some(dsc(d@)),
        None => None,
    }
}

/// Một ứng viên kèm bốn tiêu chí.
struct Xep {
    typo: usize,
    ten: usize,
    giu: usize,
    khop: usize,
    uv: UngVien,
}

impl View for Xep {
    type V = XepV;

    closed spec fn view(&self) -> XepV {
        XepV {
            typo: self.typo as nat,
            ten: self.ten as nat,
            giu: self.giu as nat,
            khop: self.khop as nat,
            uv: self.uv@,
        }
    }
}

/// Dãy ứng viên ở dạng toán học.
pub open spec fn duv(v: Seq<UngVien>) -> Seq<UngVienV> {
    v.map_values(|u: UngVien| u@)
}

spec fn dxep(v: Seq<Xep>) -> Seq<XepV> {
    v.map_values(|x: Xep| x@)
}

fn dung_truoc_exec(a: &Xep, b: &Xep) -> (r: bool)
    ensures
        r == dung_truoc(a@, b@),
{
    a.typo > b.typo || (a.typo == b.typo && (a.ten > b.ten || (a.ten == b.ten && (a.giu > b.giu || (a.giu
        == b.giu && (a.khop > b.khop || (a.khop == b.khop && a.uv.gia < b.uv.gia)))))))
}

proof fn lemma_chen_xep(r: Seq<XepV>, x: XepV, p: int)
    requires
        0 <= p <= r.len(),
        forall|j: int| p <= j < r.len() ==> dung_truoc(x, #[trigger] r[j]),
        p == 0 || !dung_truoc(x, r[p - 1]),
    ensures
        chen_xep(r, x) == r.take(p) + seq![x] + r.skip(p),
    decreases r.len(),
{
    if r.len() == 0 {
        assert(r.take(p) + seq![x] + r.skip(p) =~= seq![x]);
    } else if p == r.len() {
        assert(r.take(p) + seq![x] + r.skip(p) =~= r.push(x));
    } else {
        assert(dung_truoc(x, r[r.len() - 1]));
        let d = r.drop_last();
        assert forall|j: int| p <= j < d.len() implies dung_truoc(x, #[trigger] d[j]) by {
            assert(d[j] == r[j]);
        }
        lemma_chen_xep(d, x, p);
        assert(d.take(p) + seq![x] + d.skip(p) + seq![r.last()] =~= r.take(p) + seq![x] + r.skip(p));
    }
}

/// Chèn `x` vào `g` theo [`chen_xep`].
fn chen(g: &mut Vec<Xep>, x: Xep)
    ensures
        dxep(final(g)@) == chen_xep(dxep(old(g)@), x@),
{
    let ghost gv = dxep(g@);
    let mut p = g.len();
    while p > 0 && dung_truoc_exec(&x, &g[p - 1])
        invariant
            p <= g@.len(),
            gv == dxep(g@),
            forall|j: int| p <= j < g@.len() ==> dung_truoc(x@, #[trigger] gv[j]),
        decreases p,
    {
        p -= 1;
    }
    proof {
        lemma_chen_xep(gv, x@, p as int);
    }
    let ghost xv = x@;
    g.insert(p, x);
    assert(dxep(g@) =~= gv.take(p as int) + seq![xv] + gv.skip(p as int));
}

fn so_typo(typo: Option<&[String]>, thap: &Vec<char>) -> (r: usize)
    ensures
        r == (match opt_typo(typo) {
            Some(d) => if d.contains(thap@) { 1nat } else { 0nat },
            None => 0nat,
        }),
{
    match typo {
        Some(d) => {
            let ghost dv = dsc(d@);
            let mut j: usize = 0;
            while j < d.len()
                invariant
                    j <= d@.len(),
                    dv == dsc(d@),
                    typo == Some(d),
                    forall|k: int| 0 <= k < j ==> dv[k] != thap@,
                decreases d.len() - j,
            {
                assert(dv[j as int] == d@[j as int]@);
                if bang_nhau(ky_tu(d[j].as_str()).as_slice(), thap.as_slice()) {
                    assert(dv[j as int] == thap@);
                    assert(dv.contains(thap@));
                    return 1;
                }
                j += 1;
            }
            assert(!dv.contains(thap@));
            0
        },
        None => 0,
    }
}

/// Chép một ứng viên.
fn chep_uv(u: &UngVien) -> (r: UngVien)
    ensures
        r@ == u@,
{
    UngVien { chu: chep_chuoi(u.chu.as_str()), gia: u.gia }
}

/// Nối các cách tách, kèm giá, vào sau các cách sửa chữ.
fn noi_tach(uv: Vec<UngVien>, tach: &Vec<String>, so_dau_thanh: usize) -> (r: Vec<UngVien>)
    ensures
        duv(r@) == them_tach(duv(uv@), tach@.map_values(|s: String| s@), so_dau_thanh as nat),
{
    let ghost tv = tach@.map_values(|s: String| s@);
    let mut ds = uv;
    let ghost d0 = duv(ds@);
    let mut i: usize = 0;
    while i < tach.len()
        invariant
            i <= tach@.len(),
            tv == tach@.map_values(|s: String| s@),
            duv(ds@) == d0 + tv.take(i as int).map_values(
                |c: Seq<char>| UngVienV { chu: c, gia: gia_tach(c, so_dau_thanh as nat) },
            ),
        decreases tach.len() - i,
    {
        let chu = chep_chuoi(tach[i].as_str());
        assert(chu@ == tv[i as int]);
        let thap = chuoi(chuoi_thuong(ky_tu(chu.as_str()).as_slice()).as_slice());
        let gia = if tach_manh(thap.as_str()) || so_dau_thanh > 1 { GIA_TACH } else { GIA_TACH_YEU };
        let ghost truoc_ds = duv(ds@);
        ds.push(UngVien { chu, gia });
        assert(tv.take(i + 1) =~= tv.take(i as int).push(tv[i as int]));
        assert(duv(ds@) =~= truoc_ds.push(UngVienV { chu: tv[i as int], gia: gia_tach(tv[i as int], so_dau_thanh as nat) }));
        i += 1;
    }
    assert(tv.take(tv.len() as int) =~= tv);
    ds
}

/// Bỏ ứng viên không có thật, nếu còn lại thứ gì — xem [`loc_co_that`].
fn loc(ds: &Vec<UngVien>, tu_dien: &TuDien) -> (l: Vec<UngVien>)
    requires
        tu_dien.hop_le(),
    ensures
        duv(l@) == loc_co_that(tu_dien.kho_am_tiet(), duv(ds@)),
{
    let ghost tat_ca = duv(ds@);
    let ghost kho = tu_dien.kho_am_tiet();
    let mut co = false;
    let mut i: usize = 0;
    while i < ds.len()
        invariant
            i <= ds@.len(),
            duv(ds@) == tat_ca,
            tu_dien.hop_le(),
            kho == tu_dien.kho_am_tiet(),
            co <==> exists|k: int| 0 <= k < i && co_that_spec(kho, (#[trigger] tat_ca[k]).chu),
        decreases ds.len() - i,
    {
        assert(tat_ca[i as int] == ds@[i as int]@);
        if tu_dien.ung_vien_co_that(ds[i].chu.as_str()) {
            co = true;
        }
        i += 1;
    }
    let mut l: Vec<UngVien> = Vec::new();
    if co {
        let mut i: usize = 0;
        proof {
            reveal(Seq::filter);
            assert(tat_ca.take(0) =~= Seq::<UngVienV>::empty());
        }
        assert(duv(l@) =~= tat_ca.take(0).filter(|u: UngVienV| co_that_spec(kho, u.chu)));
        while i < ds.len()
            invariant
                i <= ds@.len(),
                duv(ds@) == tat_ca,
                tu_dien.hop_le(),
                kho == tu_dien.kho_am_tiet(),
                duv(l@) == tat_ca.take(i as int).filter(|u: UngVienV| co_that_spec(kho, u.chu)),
            decreases ds.len() - i,
        {
            proof {
                reveal(Seq::filter);
                assert(tat_ca.take(i + 1).drop_last() =~= tat_ca.take(i as int));
                assert(tat_ca.take(i + 1).last() == tat_ca[i as int]);
            }
            assert(tat_ca[i as int] == ds@[i as int]@);
            let ghost lt = duv(l@);
            if tu_dien.ung_vien_co_that(ds[i].chu.as_str()) {
                l.push(chep_uv(&ds[i]));
                assert(duv(l@) =~= lt.push(tat_ca[i as int]));
            }
            i += 1;
        }
        assert(tat_ca.take(tat_ca.len() as int) =~= tat_ca);
    } else {
        let mut i: usize = 0;
        assert(duv(l@) =~= tat_ca.take(0));
        while i < ds.len()
            invariant
                i <= ds@.len(),
                duv(ds@) == tat_ca,
                duv(l@) == tat_ca.take(i as int),
            decreases ds.len() - i,
        {
            let ghost lt = duv(l@);
            assert(tat_ca[i as int] == ds@[i as int]@);
            l.push(chep_uv(&ds[i]));
            assert(duv(l@) =~= lt.push(tat_ca[i as int]));
            assert(tat_ca.take(i + 1) =~= tat_ca.take(i as int).push(tat_ca[i as int]));
            i += 1;
        }
        assert(tat_ca.take(tat_ca.len() as int) =~= tat_ca);
    }
    l
}

/// Bối cảnh xếp hạng dựng từ các tham số của [`xep_hang_ung_vien`].
pub open spec fn boi_canh(
    goc: &str,
    truoc: Option<&str>,
    sau: Option<&str>,
    cum_ten_rieng: &BangChu<()>,
    tu_dung: &BangChu<()>,
    typo: Option<&[String]>,
    tu_dien: &TuDien,
) -> BoiCanh {
    BoiCanh {
        goc: goc@,
        truoc: opt_chu(truoc),
        sau: opt_chu(sau),
        cum: cum_ten_rieng@.dom(),
        tu_dung: tu_dung@.dom(),
        typo: opt_typo(typo),
        kho: tu_dien.kho_am_tiet(),
        ghep: tu_dien.kho_tu_ghep(),
    }
}

/// Gắn bốn tiêu chí cho từng ứng viên rồi xếp ổn định.
fn xep(
    l: &Vec<UngVien>,
    goc: &str,
    truoc: Option<&str>,
    sau: Option<&str>,
    cum_ten_rieng: &BangChu<()>,
    tu_dung: &BangChu<()>,
    typo: Option<&[String]>,
    tu_dien: &TuDien,
) -> (g: Vec<Xep>)
    requires
        cum_ten_rieng.hop_le(),
        tu_dien.hop_le(),
    ensures
        dxep(g@) == xep_on_dinh(duv(l@).map_values(
            |u: UngVienV| xep_cua(boi_canh(goc, truoc, sau, cum_ten_rieng, tu_dung, typo, tu_dien), u),
        )),
{
    let ghost b = boi_canh(goc, truoc, sau, cum_ten_rieng, tu_dung, typo, tu_dien);
    let ghost lv = duv(l@);
    let ghost xs = lv.map_values(|u: UngVienV| xep_cua(b, u));
    let mut g: Vec<Xep> = Vec::new();
    let mut i: usize = 0;
    assert(dxep(g@) =~= xep_on_dinh(xs.take(0)));
    while i < l.len()
        invariant
            i <= l@.len(),
            lv == duv(l@),
            xs == lv.map_values(|u: UngVienV| xep_cua(b, u)),
            cum_ten_rieng.hop_le(),
            tu_dien.hop_le(),
            b == boi_canh(goc, truoc, sau, cum_ten_rieng, tu_dung, typo, tu_dien),
            dxep(g@) == xep_on_dinh(xs.take(i as int)),
        decreases l.len() - i,
    {
        let u = &l[i];
        assert(lv[i as int] == u@);
        let thap = chuoi_thuong(ky_tu(u.chu.as_str()).as_slice());
        let x = Xep {
            typo: so_typo(typo, &thap),
            ten: khop_cum(cum_ten_rieng, truoc, u.chu.as_str(), sau),
            giu: if giu_phu_am_dau(goc, u.chu.as_str()) { 1 } else { 0 },
            khop: tu_dien.khop_hang_xom(truoc, u.chu.as_str(), sau),
            uv: chep_uv(u),
        };
        assert(x@ == xep_cua(b, lv[i as int]));
        assert(xs.take(i + 1).drop_last() =~= xs.take(i as int));
        chen(&mut g, x);
        i += 1;
    }
    assert(xs.take(xs.len() as int) =~= xs);
    g
}

/// Bằng chứng cho ứng viên đầu bảng — xem [`bang_chung_spec`].
fn bang_chung(g: &Vec<Xep>, typo: Option<&[String]>, tu_dung: &BangChu<()>, tu_dien: &TuDien) -> (r: BangChung)
    requires
        tu_dung.hop_le(),
        tu_dien.hop_le(),
    ensures
        forall|b: BoiCanh| b.typo == opt_typo(typo) && b.kho == tu_dien.kho_am_tiet() && b.tu_dung == tu_dung@.dom()
            ==> r == #[trigger] bang_chung_spec(dxep(g@), b),
{
    let ghost gv = dxep(g@);
    proof {
        if g@.len() > 0 {
            assert(gv[0] == g@[0]@);
        }
        if g@.len() > 1 {
            assert(gv[1] == g@[1]@);
        }
    }
    let typo_chac = match typo {
        Some(d) => d.len() == 1 && g.len() > 0 && g[0].typo > 0,
        None => false,
    };
    let cum_rieng = g.len() > 0 && g[0].ten > 0 && (g.len() == 1 || g[0].typo != g[1].typo || g[0].ten
        != g[1].ten || g[0].uv.gia != g[1].uv.gia);
    let tu_ghep = g.len() > 0 && g[0].khop > 0 && (g.len() == 1 || g[0].typo != g[1].typo || g[0].ten
        != g[1].ten || g[0].giu != g[1].giu || g[0].khop != g[1].khop || g[0].uv.gia != g[1].uv.gia);
    let dau_phu = if g.len() > 0 && g[0].uv.gia == 2 && tu_dien.ung_vien_co_that(g[0].uv.chu.as_str()) {
        let dung = if tu_dung.is_empty() {
            true
        } else {
            let thap = chuoi(chuoi_thuong(ky_tu(g[0].uv.chu.as_str()).as_slice()).as_slice());
            tu_dung.contains(thap.as_str())
        };
        dung && (g.len() == 1 || g[1].uv.gia > g[0].uv.gia)
    } else {
        false
    };
    if typo_chac {
        BangChung::Typo
    } else if cum_rieng {
        BangChung::CumTenRieng
    } else if tu_ghep {
        BangChung::TuGhep
    } else if dau_phu {
        BangChung::DauPhu
    } else {
        BangChung::Khong
    }
}

/// Sinh ứng viên rồi xếp lại theo bằng chứng: nối các cách tách vào các cách sửa
/// chữ, bỏ ứng viên không có thật (nếu còn lại thứ gì), xếp ổn định theo bảng
/// typo, cụm tên riêng, giữ phụ âm đầu, từ ghép rồi giá, và cho biết ứng viên
/// đầu bảng có bằng chứng dứt khoát nào không.
pub fn xep_hang_ung_vien(
    goc: &str,
    uv: Vec<UngVien>,
    tach: Vec<String>,
    so_dau_thanh: usize,
    truoc: Option<&str>,
    sau: Option<&str>,
    cum_ten_rieng: &BangChu<()>,
    tu_dung: &BangChu<()>,
    typo: Option<&[String]>,
    tu_dien: &TuDien,
) -> (r: (Vec<String>, BangChung))
    requires
        cum_ten_rieng.hop_le(),
        tu_dung.hop_le(),
        tu_dien.hop_le(),
    ensures
        (r.0@.map_values(|s: String| s@), r.1) == xep_hang_spec(
            boi_canh(goc, truoc, sau, cum_ten_rieng, tu_dung, typo, tu_dien),
            duv(uv@),
            tach@.map_values(|s: String| s@),
            so_dau_thanh as nat,
        ),
{
    let ghost b = boi_canh(goc, truoc, sau, cum_ten_rieng, tu_dung, typo, tu_dien);
    let ds = noi_tach(uv, &tach, so_dau_thanh);
    if ds.len() == 0 {
        let r: Vec<String> = Vec::new();
        assert(r@.map_values(|s: String| s@) =~= Seq::<Seq<char>>::empty());
        return (r, BangChung::Khong);
    }
    let l = loc(&ds, tu_dien);
    let g = xep(&l, goc, truoc, sau, cum_ten_rieng, tu_dung, typo, tu_dien);
    let ghost gv = dxep(g@);
    let bc = bang_chung(&g, typo, tu_dung, tu_dien);
    assert(bc == bang_chung_spec(gv, b));
    let mut ra: Vec<String> = Vec::new();
    let mut i: usize = 0;
    while i < g.len()
        invariant
            i <= g@.len(),
            gv == dxep(g@),
            ra@.map_values(|s: String| s@) == gv.take(i as int).map_values(|x: XepV| x.uv.chu),
        decreases g.len() - i,
    {
        let ghost rt = ra@.map_values(|s: String| s@);
        ra.push(chep_chuoi(g[i].uv.chu.as_str()));
        assert(gv[i as int] == g@[i as int]@);
        assert(ra@.map_values(|s: String| s@) =~= rt.push(gv[i as int].uv.chu));
        assert(gv.take(i + 1).map_values(|x: XepV| x.uv.chu) =~= gv.take(i as int).map_values(|x: XepV| x.uv.chu).push(gv[i as int].uv.chu));
        i += 1;
    }
    assert(gv.take(gv.len() as int) =~= gv);
    (ra, bc)
}

} // verus!
