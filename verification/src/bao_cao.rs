//! Viết báo cáo.
//!
//! Ứng dụng tự sửa rồi mới báo, nên **báo cáo là thứ duy nhất người dùng có để
//! kiểm lại**. Nó trả lời ba câu, theo đúng thứ tự: đã đổi những gì (nguyên văn
//! trước và sau), vì sao đổi, và chỗ nào **ngờ mà không đổi**.
//!
//! Các phép sửa giống hệt nhau được gom thành một dòng kèm số lần, xếp dòng
//! nhiều lần lên trước; cùng số lần thì theo thứ tự chữ của cặp (gốc, mới).
use vstd::prelude::*;
use crate::chuoi::{bang_nhau, chuoi, hex_bon, ky_tu, nho_hon, nho_hon_exec, so_muoi, viet_hex_bon, viet_so};
use crate::chuan_hoa::{nfc, nfc_cua};
use crate::hoa_thuong::{dieu_khien, la_dieu_khien};
use crate::thuc_the::ma_hoa_spec;
use crate::xu_ly::{cac_loai, chi_hinh_thuc, KetQuaSach};
use crate::dau_thanh::Kieu;
use crate::sua::DoChac;
use crate::soat::{dao, dscx, ChoXet, ChoXetV};
use crate::sua::{dsv, ten_loai, Loai, SuaDoi, SuaDoiV};

verus! {

/// Một dòng gom: khoá `(a, b)`, lý do đi kèm, và số lần gặp.
#[derive(Debug)]
pub struct Dong {
    pub a: String,
    pub b: String,
    pub ly_do: String,
    pub n: usize,
}

/// Một dòng gom ở dạng toán học.
pub struct DongV {
    pub a: Seq<char>,
    pub b: Seq<char>,
    pub ly_do: Seq<char>,
    pub n: nat,
}

impl View for Dong {
    type V = DongV;

    open spec fn view(&self) -> DongV {
        DongV { a: self.a@, b: self.b@, ly_do: self.ly_do@, n: self.n as nat }
    }
}

/// Các dòng gom ở dạng toán học.
pub open spec fn dsd(v: Seq<Dong>) -> Seq<DongV> {
    v.map_values(|d: Dong| d@)
}

/// Vị trí đầu tiên từ `i` trở đi của dòng mang khoá `(a, b)`.
pub open spec fn tim_khoa(nh: Seq<DongV>, a: Seq<char>, b: Seq<char>, i: int) -> Option<int>
    decreases nh.len() - i,
{
    if i < 0 || i >= nh.len() {
        None
    } else if nh[i].a == a && nh[i].b == b {
        Some(i)
    } else {
        tim_khoa(nh, a, b, i + 1)
    }
}

/// Gom thêm một mục: khoá đã có thì cộng một lần, chưa có thì thêm dòng mới ở
/// cuối (giữ lý do của lần gặp đầu).
pub open spec fn them_dong(nh: Seq<DongV>, x: DongV) -> Seq<DongV> {
    match tim_khoa(nh, x.a, x.b, 0) {
        Some(i) => nh.update(i, DongV { n: nh[i].n + 1, ..nh[i] }),
        None => nh.push(DongV { n: 1, ..x }),
    }
}

/// Gom các mục theo khoá, theo thứ tự gặp lần đầu.
pub open spec fn gom_cap(s: Seq<DongV>) -> Seq<DongV>
    decreases s.len(),
{
    if s.len() == 0 {
        seq![]
    } else {
        them_dong(gom_cap(s.drop_last()), s.last())
    }
}

/// `x` xếp trước `y`: nhiều lần hơn, hoặc cùng số lần mà khoá đứng trước theo
/// thứ tự chữ.
pub open spec fn truoc_dong(x: DongV, y: DongV) -> bool {
    x.n > y.n || (x.n == y.n && (nho_hon(x.a, y.a) || (x.a == y.a && nho_hon(x.b, y.b))))
}

/// Chèn `x` vào sau mọi dòng không xếp sau nó.
pub open spec fn chen_dong(s: Seq<DongV>, x: DongV) -> Seq<DongV>
    decreases s.len(),
{
    if s.len() == 0 {
        seq![x]
    } else if truoc_dong(x, s.last()) {
        chen_dong(s.drop_last(), x).push(s.last())
    } else {
        s.push(x)
    }
}

/// Sắp ổn định theo [`truoc_dong`].
pub open spec fn sap_dong(s: Seq<DongV>) -> Seq<DongV>
    decreases s.len(),
{
    if s.len() == 0 {
        s
    } else {
        chen_dong(sap_dong(s.drop_last()), s.last())
    }
}

/// Gom rồi sắp: kết quả của một bảng gom trong báo cáo.
pub open spec fn bang_gom(s: Seq<DongV>) -> Seq<DongV> {
    sap_dong(gom_cap(s))
}

fn truoc_exec(x: &Dong, y: &Dong) -> (r: bool)
    ensures
        r == truoc_dong(x@, y@),
{
    if x.n > y.n {
        return true;
    }
    if x.n < y.n {
        return false;
    }
    let xa = ky_tu(x.a.as_str());
    let ya = ky_tu(y.a.as_str());
    if nho_hon_exec(xa.as_slice(), ya.as_slice()) {
        return true;
    }
    if !bang_nhau(xa.as_slice(), ya.as_slice()) {
        return false;
    }
    let xb = ky_tu(x.b.as_str());
    let yb = ky_tu(y.b.as_str());
    nho_hon_exec(xb.as_slice(), yb.as_slice())
}

proof fn lemma_chen_dong_tach(s: Seq<DongV>, x: DongV, p: int)
    requires
        0 <= p <= s.len(),
        p > 0 ==> !truoc_dong(x, s[p - 1]),
        forall|q: int| p <= q < s.len() ==> truoc_dong(x, #[trigger] s[q]),
    ensures
        chen_dong(s, x) == s.insert(p, x),
    decreases s.len(),
{
    if s.len() == 0 {
        assert(s.insert(p, x) =~= seq![x]);
    } else if p == s.len() {
        assert(s.insert(p, x) =~= s.push(x));
    } else {
        lemma_chen_dong_tach(s.drop_last(), x, p);
        assert(s.insert(p, x) =~= s.drop_last().insert(p, x).push(s.last()));
    }
}

fn chen_dong_exec(ra: &mut Vec<Dong>, x: Dong)
    ensures
        dsd(final(ra)@) == chen_dong(dsd(old(ra)@), x@),
{
    let ghost s = dsd(ra@);
    let mut p: usize = ra.len();
    while p > 0 && truoc_exec(&x, &ra[p - 1])
        invariant
            p <= ra@.len(),
            s == dsd(ra@),
            forall|q: int| p <= q < s.len() ==> truoc_dong(x@, #[trigger] s[q]),
        decreases p,
    {
        p -= 1;
    }
    proof {
        lemma_chen_dong_tach(s, x@, p as int);
    }
    ra.insert(p, x);
    assert(dsd(ra@) =~= s.insert(p as int, x@));
}

/// Sắp ổn định các dòng gom: nhiều lần lên trước, cùng số lần thì theo khoá.
fn sap_dong_exec(v: Vec<Dong>) -> (r: Vec<Dong>)
    ensures
        dsd(r@) == sap_dong(dsd(v@)),
{
    let ghost g = dsd(v@);
    let mut nguon = dao(v);
    let mut ra: Vec<Dong> = Vec::new();
    let ghost mut k: int = 0;
    proof {
        assert(g.take(0) =~= Seq::<DongV>::empty());
        assert(dsd(ra@) =~= Seq::<DongV>::empty());
        assert(dsd(nguon@.reverse()) =~= g);
    }
    while nguon.len() > 0
        invariant
            0 <= k <= g.len(),
            dsd(nguon@.reverse()) == g.skip(k),
            dsd(ra@) == sap_dong(g.take(k)),
        decreases nguon.len(),
    {
        let ghost n0 = nguon@;
        let x = nguon.pop().unwrap();
        proof {
            assert(n0 =~= nguon@.push(x));
            assert(n0.reverse() =~= seq![x] + nguon@.reverse());
            assert(dsd(n0.reverse()).len() == n0.len());
            assert(k < g.len());
            assert(dsd(n0.reverse())[0] == x@);
            assert(g.skip(k)[0] == g[k]);
            assert forall|q: int| 0 <= q < nguon@.len() implies #[trigger] dsd(nguon@.reverse())[q] == g.skip(k + 1)[q] by {
                assert(nguon@.reverse()[q] == n0.reverse()[q + 1]);
                assert(dsd(n0.reverse())[q + 1] == g.skip(k)[q + 1]);
            }
            assert(dsd(nguon@.reverse()) =~= g.skip(k + 1));
            assert(g.take(k + 1).drop_last() =~= g.take(k));
            assert(g.take(k + 1).last() == x@);
        }
        chen_dong_exec(&mut ra, x);
        proof {
            k = k + 1;
        }
    }
    proof {
        assert(g.skip(k).len() == 0);
        assert(g.take(k) =~= g);
    }
    ra
}

fn tim_khoa_exec(nh: &Vec<Dong>, a: &[char], b: &[char]) -> (r: Option<usize>)
    ensures
        r matches Some(i) ==> tim_khoa(dsd(nh@), a@, b@, 0) == Some(i as int),
        r is None ==> tim_khoa(dsd(nh@), a@, b@, 0) is None,
{
    let ghost s = dsd(nh@);
    let mut i: usize = 0;
    while i < nh.len()
        invariant
            i <= nh@.len(),
            s == dsd(nh@),
            tim_khoa(s, a@, b@, 0) == tim_khoa(s, a@, b@, i as int),
        decreases nh.len() - i,
    {
        assert(s[i as int] == nh@[i as int]@);
        let ka = ky_tu(nh[i].a.as_str());
        let kb = ky_tu(nh[i].b.as_str());
        if bang_nhau(ka.as_slice(), a) && bang_nhau(kb.as_slice(), b) {
            return Some(i);
        }
        i += 1;
    }
    None
}

proof fn lemma_tim_khoa(nh: Seq<DongV>, a: Seq<char>, b: Seq<char>, i: int)
    requires
        0 <= i,
    ensures
        tim_khoa(nh, a, b, i) matches Some(k) ==> i <= k < nh.len(),
    decreases nh.len() - i,
{
    if i < nh.len() && !(nh[i].a == a && nh[i].b == b) {
        lemma_tim_khoa(nh, a, b, i + 1);
    }
}

/// Gom các mục theo khoá; số lần của mỗi dòng không vượt số mục.
fn gom_cap_exec(v: Vec<Dong>) -> (r: Vec<Dong>)
    ensures
        dsd(r@) == gom_cap(dsd(v@)),
{
    let ghost g = dsd(v@);
    let tong = v.len();
    assert(g.len() == tong);
    let mut nguon = dao(v);
    let mut nh: Vec<Dong> = Vec::new();
    let ghost mut k: int = 0;
    proof {
        assert(g.take(0) =~= Seq::<DongV>::empty());
        assert(dsd(nh@) =~= Seq::<DongV>::empty());
        assert(dsd(nguon@.reverse()) =~= g);
    }
    while nguon.len() > 0
        invariant
            0 <= k <= g.len(),
            dsd(nguon@.reverse()) == g.skip(k),
            dsd(nh@) == gom_cap(g.take(k)),
            forall|q: int| 0 <= q < nh@.len() ==> #[trigger] nh@[q].n <= k,
            k + nguon@.len() == g.len(),
            g.len() <= usize::MAX,
        decreases nguon.len(),
    {
        let ghost n0 = nguon@;
        let x = nguon.pop().unwrap();
        proof {
            assert(n0 =~= nguon@.push(x));
            assert(n0.reverse() =~= seq![x] + nguon@.reverse());
            assert(dsd(n0.reverse()).len() == n0.len());
            assert(dsd(n0.reverse())[0] == x@);
            assert(g.skip(k)[0] == g[k]);
            assert forall|q: int| 0 <= q < nguon@.len() implies #[trigger] dsd(nguon@.reverse())[q] == g.skip(k + 1)[q] by {
                assert(nguon@.reverse()[q] == n0.reverse()[q + 1]);
                assert(dsd(n0.reverse())[q + 1] == g.skip(k)[q + 1]);
            }
            assert(dsd(nguon@.reverse()) =~= g.skip(k + 1));
            assert(g.take(k + 1).drop_last() =~= g.take(k));
            assert(g.take(k + 1).last() == x@);
        }
        let ghost truoc = dsd(nh@);
        let xa = ky_tu(x.a.as_str());
        let xb = ky_tu(x.b.as_str());
        match tim_khoa_exec(&nh, xa.as_slice(), xb.as_slice()) {
            Some(i) => {
                proof {
                    lemma_tim_khoa(truoc, x@.a, x@.b, 0);
                }
                let cu = nh[i].n;
                nh[i].n = cu + 1;
                assert(dsd(nh@) =~= truoc.update(i as int, DongV { n: truoc[i as int].n + 1, ..truoc[i as int] }));
            },
            None => {
                nh.push(Dong { a: x.a, b: x.b, ly_do: x.ly_do, n: 1 });
                assert(dsd(nh@) =~= truoc.push(DongV { n: 1, ..x@ }));
            },
        }
        proof {
            k = k + 1;
        }
    }
    proof {
        assert(g.skip(k).len() == 0);
        assert(g.take(k) =~= g);
    }
    nh
}

/// Gom rồi sắp các mục thành một bảng của báo cáo.
fn bang_gom_exec(v: Vec<Dong>) -> (r: Vec<Dong>)
    ensures
        dsd(r@) == bang_gom(dsd(v@)),
{
    sap_dong_exec(gom_cap_exec(v))
}

/// Đầu trang báo cáo HTML: khai báo, tiêu đề, bảng kiểu.
pub const DAU_TRANG: &'static str = "<!doctype html><html lang=\"vi\"><head><meta charset=\"utf-8\">\n<title>Báo cáo sửa chính tả</title><style>\n:root{color-scheme:light dark;--nen:#fff;--chu:#1a1a1a;--mo:#666;--vien:#e0e0e0;--do:#c0392b;--xanh:#1e7e34;--vang:#8a6d1f;--nennhe:#fafafa}\n@media(prefers-color-scheme:dark){:root{--nen:#16181c;--chu:#e6e6e6;--mo:#9aa0a6;--vien:#2c3038;--do:#ff8a80;--xanh:#7ee08a;--vang:#e8c86a;--nennhe:#1c1f24}}\n*{box-sizing:border-box}\nbody{background:var(--nen);color:var(--chu);font:16px/1.6 -apple-system,\"Segoe UI\",system-ui,sans-serif;margin:0;padding:2rem 1.25rem;max-width:60rem;margin-inline:auto}\nh1{font-size:1.6rem;margin:0 0 .25rem}\nh2{font-size:1.15rem;margin:2.5rem 0 .75rem;padding-bottom:.35rem;border-bottom:1px solid var(--vien)}\n.phu{color:var(--mo);margin:0 0 2rem}\n.the{display:flex;flex-wrap:wrap;gap:.75rem;margin:1.5rem 0}\n.o{border:1px solid var(--vien);border-radius:.5rem;padding:.6rem .9rem;background:var(--nennhe);min-width:8rem}\n.o b{display:block;font-size:1.5rem;line-height:1.2}\n.o span{color:var(--mo);font-size:.85rem}\ntable{border-collapse:collapse;width:100%;font-size:.94rem}\nth,td{text-align:left;padding:.45rem .6rem;border-bottom:1px solid var(--vien);vertical-align:top}\nth{color:var(--mo);font-weight:600;font-size:.85rem;text-transform:uppercase;letter-spacing:.03em}\ntd.n{text-align:right;color:var(--mo);white-space:nowrap}\ncode{font-family:ui-monospace,\"Cascadia Code\",Consolas,monospace;font-size:.92em;background:var(--nennhe);padding:.1em .35em;border-radius:.25em}\n.cu{color:var(--do)}.moi{color:var(--xanh)}\n.mui{color:var(--mo);padding:0 .4em}\n.ghi{color:var(--mo);font-size:.88rem}\n.canh{border-left:3px solid var(--vang);background:var(--nennhe);padding:.75rem 1rem;border-radius:0 .4rem .4rem 0;margin:1rem 0}\n.cuon{overflow-x:auto}\n</style></head><body>";

/// Cảnh báo khi chạy không có mô hình ngôn ngữ.
pub const CANH_MO_HINH: &'static str = "<div class=\"canh\"><b>Chạy không có mô hình ngôn ngữ.</b> Những chỗ cần hiểu\n            câu mới phân được đều nằm nguyên ở mục <i>chỗ ngờ</i> bên dưới chứ không được\n            sửa. Chọn một file mô hình GGUF trong phần Cài đặt để bật tầng này.</div>";

/// Phần sau con số trong cảnh báo vướng thẻ HTML.
pub const CANH_VUONG: &'static str = " chỗ tìm ra nhưng không sửa được</b> vì chữ bị thẻ HTML\n            cắt ngang (kiểu <code>khô&lt;i&gt;ng&lt;/i&gt;</code>). Sửa được thì phải xoá thẻ,\n            mà đó là đổi cách trình bày chứ không phải sửa chính tả.</div>";

/// Ba phần chữ quanh hai con số trong cảnh báo kiểu đặt dấu không nhất quán.
pub const CANH_KIEU_DAU: &'static str = "<div class=\"canh\"><b>Sách vốn không nhất quán kiểu đặt dấu thanh</b> — ";
pub const CANH_KIEU_GIUA: &'static str = " chỗ\n            kiểu cũ (<code>hòa</code>) và ";
pub const CANH_KIEU_CUOI: &'static str = " chỗ kiểu mới (<code>hoà</code>). Cả hai đều đúng\n            chính tả, nên đây là lựa chọn trình bày. Đã kéo về kiểu chiếm đa số.</div>";

/// Lời dẫn của mục chỗ ngờ.
pub const LOI_DAN_NGO: &'static str = "<p class=\"ghi\">Những chỗ bộ dò thấy đáng ngờ nhưng không đủ căn cứ để tự đổi.\n            Đây là danh sách việc còn lại — kiểm bằng mắt rồi sửa tay.</p>";

fn them(o: &mut Vec<char>, s: &str)
    ensures
        final(o)@ == old(o)@ + s@,
{
    let mut v = ky_tu(s);
    o.append(&mut v);
}

fn them_v(o: &mut Vec<char>, v: Vec<char>)
    ensures
        final(o)@ == old(o)@ + v@,
{
    let mut v = v;
    o.append(&mut v);
}

fn them_so(o: &mut Vec<char>, n: usize)
    ensures
        final(o)@ == old(o)@ + so_muoi(n as nat),
{
    them_v(o, viet_so(n));
}

/// Thoát ba ký tự đặc biệt của HTML: `&`, `<`, `>`.
fn thoat(s: &str) -> (r: Vec<char>)
    ensures
        r@ == ma_hoa_spec(s@),
{
    ky_tu(crate::thuc_the::ma_hoa(s).as_str())
}

/// Ký tự phải hiện bằng mã: ký tự điều khiển, gạch nối mềm, các ký tự vô hình
/// từ U+200B tới U+200F.
pub open spec fn can_hien_ma(c: char) -> bool {
    la_dieu_khien(c) || (c as u32) == 0xAD || (0x200B <= (c as u32) && (c as u32) <= 0x200F)
}

/// Dạng nhìn thấy được của một ký tự.
pub open spec fn hien_ky_tu(c: char) -> Seq<char> {
    if c == ' ' {
        seq!['␣']
    } else if c == '\t' {
        seq!['⇥']
    } else if c == '\n' {
        seq!['⏎']
    } else if can_hien_ma(c) {
        seq!['⟨', 'U', '+'] + hex_bon(c as u32 as nat) + seq!['⟩']
    } else {
        seq![c]
    }
}

/// Nối dạng nhìn thấy được của từng ký tự.
pub open spec fn hien_day(s: Seq<char>) -> Seq<char>
    decreases s.len(),
{
    if s.len() == 0 {
        seq![]
    } else {
        hien_day(s.drop_last()) + hien_ky_tu(s.last())
    }
}

/// Hiện khoảng trắng và ký tự vô hình ra dạng nhìn thấy được; chuỗi rỗng hiện `∅`.
pub open spec fn hien_spec(s: Seq<char>) -> Seq<char> {
    if s.len() == 0 {
        seq!['∅']
    } else {
        hien_day(s)
    }
}

fn hien(s: &str) -> (r: Vec<char>)
    ensures
        r@ == hien_spec(s@),
{
    let v = ky_tu(s);
    if v.len() == 0 {
        let r = vec!['∅'];
        assert(r@ =~= seq!['∅']);
        return r;
    }
    let mut r: Vec<char> = Vec::new();
    let mut i: usize = 0;
    assert(s@.take(0) =~= Seq::<char>::empty());
    while i < v.len()
        invariant
            i <= v@.len(),
            v@ == s@,
            r@ == hien_day(s@.take(i as int)),
        decreases v.len() - i,
    {
        let c = v[i];
        assert(s@.take(i + 1).drop_last() =~= s@.take(i as int));
        assert(s@.take(i + 1).last() == c);
        if c == ' ' {
            r.push('␣');
            assert(r@ =~= hien_day(s@.take(i as int)) + seq!['␣']);
        } else if c == '\t' {
            r.push('⇥');
            assert(r@ =~= hien_day(s@.take(i as int)) + seq!['⇥']);
        } else if c == '\n' {
            r.push('⏎');
            assert(r@ =~= hien_day(s@.take(i as int)) + seq!['⏎']);
        } else if dieu_khien(c) || (c as u32) == 0xAD || (0x200B <= (c as u32) && (c as u32) <= 0x200F) {
            let mut m = vec!['⟨', 'U', '+'];
            them_v(&mut m, viet_hex_bon(c as u32));
            m.push('⟩');
            assert(m@ =~= seq!['⟨', 'U', '+'] + hex_bon(c as u32 as nat) + seq!['⟩']);
            them_v(&mut r, m);
        } else {
            r.push(c);
            assert(r@ =~= hien_day(s@.take(i as int)) + seq![c]);
        }
        i += 1;
    }
    assert(s@.take(v@.len() as int) =~= s@);
    r
}

/// Mã của một ký tự: `U+` và bốn chữ số hệ mười sáu trở lên.
pub open spec fn ma_ky_tu(c: char) -> Seq<char> {
    seq!['U', '+'] + hex_bon(c as u32 as nat)
}

/// Mã của từng ký tự, cách nhau một khoảng trắng.
pub open spec fn ma_day(s: Seq<char>) -> Seq<char>
    decreases s.len(),
{
    if s.len() == 0 {
        seq![]
    } else if s.len() == 1 {
        ma_ky_tu(s[0])
    } else {
        ma_day(s.drop_last()) + seq![' '] + ma_ky_tu(s.last())
    }
}

fn ma(s: &str) -> (r: Vec<char>)
    ensures
        r@ == ma_day(s@),
{
    let v = ky_tu(s);
    let mut r: Vec<char> = Vec::new();
    let mut i: usize = 0;
    assert(s@.take(0) =~= Seq::<char>::empty());
    while i < v.len()
        invariant
            i <= v@.len(),
            v@ == s@,
            r@ == ma_day(s@.take(i as int)),
        decreases v.len() - i,
    {
        let c = v[i];
        assert(s@.take(i + 1).drop_last() =~= s@.take(i as int));
        assert(s@.take(i + 1).last() == c);
        if i > 0 {
            r.push(' ');
        }
        let mut m = vec!['U', '+'];
        them_v(&mut m, viet_hex_bon(c as u32));
        assert(m@ =~= ma_ky_tu(c));
        them_v(&mut r, m);
        proof {
            if i == 0 {
                assert(s@.take(1) =~= seq![c]);
            }
        }
        i += 1;
    }
    assert(s@.take(v@.len() as int) =~= s@);
    r
}

/// Cặp trước/sau để hiện: thêm mã ký tự khi hai vế **nhìn giống hệt nhau** sau
/// khi dựng lại NFC.
pub open spec fn cap_spec(goc: Seq<char>, moi: Seq<char>) -> (Seq<char>, Seq<char>) {
    let a = hien_spec(goc);
    let b = hien_spec(moi);
    if nfc_cua(a) != nfc_cua(b) {
        (a, b)
    } else {
        (
            a + seq![' ', '⟨'] + ma_day(goc) + seq!['⟩'],
            b + seq![' ', '⟨'] + ma_day(moi) + seq!['⟩'],
        )
    }
}

fn cap(goc: &str, moi: &str) -> (r: (Vec<char>, Vec<char>))
    ensures
        (r.0@, r.1@) == cap_spec(goc@, moi@),
{
    let a = hien(goc);
    let b = hien(moi);
    let na = ky_tu(nfc(chuoi(a.as_slice()).as_str()).as_str());
    let nb = ky_tu(nfc(chuoi(b.as_slice()).as_str()).as_str());
    if !bang_nhau(na.as_slice(), nb.as_slice()) {
        return (a, b);
    }
    let mut x = a;
    x.push(' ');
    x.push('⟨');
    them_v(&mut x, ma(goc));
    x.push('⟩');
    let mut y = b;
    y.push(' ');
    y.push('⟨');
    them_v(&mut y, ma(moi));
    y.push('⟩');
    proof {
        assert(x@ =~= hien_spec(goc@) + seq![' ', '⟨'] + ma_day(goc@) + seq!['⟩']);
        assert(y@ =~= hien_spec(moi@) + seq![' ', '⟨'] + ma_day(moi@) + seq!['⟩']);
    }
    (x, y)
}

/// Nối các chuỗi, cách nhau bởi `, ` (như `join(", ")`).
pub open spec fn noi_phay(s: Seq<Seq<char>>) -> Seq<char>
    decreases s.len(),
{
    if s.len() == 0 {
        seq![]
    } else if s.len() == 1 {
        s[0]
    } else {
        noi_phay(s.drop_last()) + seq![',', ' '] + s.last()
    }
}

fn noi_phay_exec(s: &Vec<String>) -> (r: Vec<char>)
    ensures
        r@ == noi_phay(s@.map_values(|x: String| x@)),
{
    let ghost g = s@.map_values(|x: String| x@);
    let mut r: Vec<char> = Vec::new();
    let mut i: usize = 0;
    assert(g.take(0) =~= Seq::<Seq<char>>::empty());
    while i < s.len()
        invariant
            i <= s@.len(),
            g == s@.map_values(|x: String| x@),
            r@ == noi_phay(g.take(i as int)),
        decreases s.len() - i,
    {
        assert(g.take(i + 1).drop_last() =~= g.take(i as int));
        assert(g.take(i + 1).last() == s@[i as int]@);
        if i > 0 {
            r.push(',');
            r.push(' ');
        }
        them(&mut r, s[i].as_str());
        proof {
            if i == 0 {
                assert(g.take(1) =~= seq![g[0]]);
                assert(r@ =~= g[0]);
            } else {
                assert(r@ =~= noi_phay(g.take(i as int)) + seq![',', ' '] + g[i as int]);
            }
        }
        i += 1;
    }
    assert(g.take(g.len() as int) =~= g);
    r
}

/// Mục gom cho một phép sửa: khoá (gốc, mới), lý do của nó.
pub open spec fn muc_sua(x: SuaDoiV) -> DongV {
    DongV { a: x.goc, b: x.thay_bang, ly_do: x.ly_do, n: 1 }
}

/// Các mục gom của loại `l`, theo thứ tự phép sửa.
pub open spec fn muc_loai(g: Seq<SuaDoiV>, l: Loai) -> Seq<DongV> {
    g.filter(|x: SuaDoiV| x.loai == l).map_values(|x: SuaDoiV| muc_sua(x))
}

/// Các phép sửa gom theo loại (theo thứ tự chữ cái của tên loại), mỗi loại một
/// bảng gom; loại không có phép nào thì không có mặt.
pub open spec fn gom_spec(g: Seq<SuaDoiV>) -> Seq<(Loai, Seq<DongV>)> {
    cac_loai().filter(|l: Loai| muc_loai(g, l).len() > 0).map_values(|l: Loai| (l, bang_gom(muc_loai(g, l))))
}

fn muc_loai_exec(ds: &Vec<SuaDoi>, l: Loai) -> (r: Vec<Dong>)
    ensures
        dsd(r@) == muc_loai(dsv(ds@), l),
{
    let ghost g = dsv(ds@);
    let mut r: Vec<Dong> = Vec::new();
    let mut i: usize = 0;
    proof {
        reveal(Seq::filter);
        assert(g.take(0) =~= Seq::<SuaDoiV>::empty());
        assert(dsd(r@) =~= Seq::<DongV>::empty());
        assert(muc_loai(g.take(0), l) =~= Seq::<DongV>::empty());
    }
    while i < ds.len()
        invariant
            i <= ds@.len(),
            g == dsv(ds@),
            dsd(r@) == muc_loai(g.take(i as int), l),
        decreases ds.len() - i,
    {
        proof {
            reveal(Seq::filter);
            assert(g.take(i + 1).drop_last() =~= g.take(i as int));
            assert(g.take(i + 1).last() == g[i as int]);
        }
        let x = &ds[i];
        assert(g[i as int] == x@);
        let ghost truoc = dsd(r@);
        if x.loai == l {
            r.push(
                Dong {
                    a: chuoi(ky_tu(x.goc.as_str()).as_slice()),
                    b: chuoi(ky_tu(x.thay_bang.as_str()).as_slice()),
                    ly_do: chuoi(ky_tu(x.ly_do.as_str()).as_slice()),
                    n: 1,
                },
            );
            assert(dsd(r@) =~= truoc.push(muc_sua(x@)));
            assert(muc_loai(g.take(i + 1), l) =~= muc_loai(g.take(i as int), l).push(muc_sua(x@)));
        } else {
            assert(muc_loai(g.take(i + 1), l) =~= muc_loai(g.take(i as int), l));
        }
        i += 1;
    }
    assert(g.take(g.len() as int) =~= g);
    r
}

/// Gom phép sửa trùng nhau theo loại.
fn gom(kq: &KetQuaSach) -> (r: Vec<(Loai, Vec<Dong>, usize)>)
    ensures
        r@.map_values(|p: (Loai, Vec<Dong>, usize)| (p.0, dsd(p.1@))) == gom_spec(dsv(kq.da_sua@)),
        forall|i: int| 0 <= i < r@.len() ==> #[trigger] r@[i].2 == muc_loai(dsv(kq.da_sua@), r@[i].0).len(),
{
    let ghost g = dsv(kq.da_sua@);
    let ds = vec![
        Loai::BangMa,
        Loai::DinhChu,
        Loai::DauCau,
        Loai::DauThanh,
        Loai::DeNham,
        Loai::KhoangTrang,
        Loai::KieuDau,
        Loai::AmTietSai,
        Loai::Unicode,
    ];
    assert(ds@ =~= cac_loai());
    let mut r: Vec<(Loai, Vec<Dong>, usize)> = Vec::new();
    let mut i: usize = 0;
    proof {
        reveal(Seq::filter);
        assert(cac_loai().take(0) =~= Seq::<Loai>::empty());
        assert(r@.map_values(|p: (Loai, Vec<Dong>, usize)| (p.0, dsd(p.1@))) =~= Seq::<(Loai, Seq<DongV>)>::empty());
    }
    while i < ds.len()
        invariant
            i <= ds@.len(),
            ds@ == cac_loai(),
            g == dsv(kq.da_sua@),
            r@.map_values(|p: (Loai, Vec<Dong>, usize)| (p.0, dsd(p.1@))) == cac_loai().take(i as int).filter(
                |l: Loai| muc_loai(g, l).len() > 0,
            ).map_values(|l: Loai| (l, bang_gom(muc_loai(g, l)))),
            forall|q: int| 0 <= q < r@.len() ==> #[trigger] r@[q].2 == muc_loai(g, r@[q].0).len(),
        decreases ds.len() - i,
    {
        let l = ds[i];
        let muc = muc_loai_exec(&kq.da_sua, l);
        let ghost truoc = r@.map_values(|p: (Loai, Vec<Dong>, usize)| (p.0, dsd(p.1@)));
        proof {
            reveal(Seq::filter);
            assert(cac_loai().take(i + 1).drop_last() =~= cac_loai().take(i as int));
            assert(cac_loai().take(i + 1).last() == l);
        }
        let n = muc.len();
        if n > 0 {
            let bang = bang_gom_exec(muc);
            r.push((l, bang, n));
            assert(r@.map_values(|p: (Loai, Vec<Dong>, usize)| (p.0, dsd(p.1@))) =~= truoc.push(
                (l, bang_gom(muc_loai(g, l))),
            ));
        }
        i += 1;
    }
    assert(cac_loai().take(9) =~= cac_loai());
    r
}

/// Số phép sửa có độ chắc thấp — hiện riêng để người dùng biết nên soi kỹ tới đâu.
pub fn so_ngo_vuc(kq: &KetQuaSach) -> (n: usize)
    ensures
        n == dsv(kq.da_sua@).filter(|x: SuaDoiV| x.do_chac == DoChac::NgoVuc).len(),
{
    let ghost g = dsv(kq.da_sua@);
    let mut n: usize = 0;
    let mut i: usize = 0;
    proof {
        reveal(Seq::filter);
        assert(g.take(0) =~= Seq::<SuaDoiV>::empty());
    }
    while i < kq.da_sua.len()
        invariant
            i <= kq.da_sua@.len(),
            g == dsv(kq.da_sua@),
            n == g.take(i as int).filter(|x: SuaDoiV| x.do_chac == DoChac::NgoVuc).len(),
            n <= i,
        decreases kq.da_sua.len() - i,
    {
        proof {
            reveal(Seq::filter);
            assert(g.take(i + 1).drop_last() =~= g.take(i as int));
            assert(g.take(i + 1).last() == g[i as int]);
        }
        if kq.da_sua[i].do_chac == DoChac::NgoVuc {
            n += 1;
        }
        i += 1;
    }
    assert(g.take(g.len() as int) =~= g);
    n
}


/// Một ô số liệu ở đầu báo cáo.
pub open spec fn o_so(n: nat, nhan: Seq<char>) -> Seq<char> {
    "<div class=\"o\"><b>"@ + so_muoi(n) + "</b><span>"@ + nhan + "</span></div>"@
}

/// Nhan đề để hiện: thiếu thì ghi rõ là không rõ.
pub open spec fn nhan_de_hien(nd: Option<String>) -> Seq<char> {
    match nd {
        Some(t) => t@,
        None => "(không rõ nhan đề)"@,
    }
}

/// Phe thiểu số chiếm hơn một phần năm số phiếu kiểu đặt dấu.
pub open spec fn thieu_so_nhieu(cu: nat, moi: nat) -> bool {
    let it = if cu < moi { cu } else { moi };
    5 * it > cu + moi
}

/// Nhan đề và dòng mô tả sách của báo cáo HTML.
pub open spec fn tieu_de_html(kq: KetQuaSach) -> Seq<char> {
    DAU_TRANG@ + "<h1>"@ + ma_hoa_spec(nhan_de_hien(kq.nhan_de)) + "</h1>"@
        + "<p class=\"phu\">Báo cáo sửa chính tả — "@ + so_muoi(kq.so_file as nat) + " file nội dung, "@
        + so_muoi(kq.so_doan as nat) + " đoạn, "@ + so_muoi(kq.so_chu as nat) + " chữ.</p>"@
}

/// Các ô số liệu của báo cáo HTML.
pub open spec fn so_lieu_html(kq: KetQuaSach) -> Seq<char> {
    "<div class=\"the\">"@ + o_so(kq.da_sua@.len(), "phép sửa"@)
        + o_so(dsv(kq.da_sua@).filter(|x: SuaDoiV| !chi_hinh_thuc(x.loai)).len(), "lỗi chữ nghĩa"@)
        + o_so(kq.chua_sua@.len(), "chỗ ngờ, chưa sửa"@)
        + "<div class=\"o\"><b>"@ + (if kq.kieu_dau == Kieu::Cu { "cũ"@ } else { "mới"@ })
        + "</b><span>kiểu đặt dấu</span></div>"@ + "</div>"@
}

/// Các cảnh báo của báo cáo HTML: không có mô hình, vướng thẻ, kiểu đặt dấu không
/// nhất quán.
pub open spec fn canh_html(kq: KetQuaSach) -> Seq<char> {
    (if !kq.co_mo_hinh { CANH_MO_HINH@ } else { seq![] })
        + (if kq.vuong_the > 0 { "<div class=\"canh\"><b>"@ + so_muoi(kq.vuong_the as nat) + CANH_VUONG@ } else { seq![] })
        + (if thieu_so_nhieu(kq.dem_kieu.cu as nat, kq.dem_kieu.moi as nat) {
            CANH_KIEU_DAU@ + so_muoi(kq.dem_kieu.cu as nat) + CANH_KIEU_GIUA@ + so_muoi(kq.dem_kieu.moi as nat)
                + CANH_KIEU_CUOI@
        } else {
            seq![]
        })
}

fn o_so_exec(o: &mut Vec<char>, n: usize, nhan: &str)
    ensures
        final(o)@ == old(o)@ + o_so(n as nat, nhan@),
{
    let ghost o0 = o@;
    them(o, "<div class=\"o\"><b>");
    them_so(o, n);
    them(o, "</b><span>");
    them(o, nhan);
    them(o, "</span></div>");
    assert(o@ =~= o0 + o_so(n as nat, nhan@));
}

fn thieu_so_exec(cu: usize, moi: usize) -> (r: bool)
    ensures
        r == thieu_so_nhieu(cu as nat, moi as nat),
{
    let it: u128 = if cu < moi { cu as u128 } else { moi as u128 };
    5 * it > (cu as u128) + (moi as u128)
}

fn tieu_de_html_exec(o: &mut Vec<char>, kq: &KetQuaSach)
    ensures
        final(o)@ == old(o)@ + tieu_de_html(*kq),
{
    let ghost o0 = o@;
    them(o, DAU_TRANG);
    them(o, "<h1>");
    match &kq.nhan_de {
        Some(t) => {
            them_v(o, thoat(t.as_str()));
        },
        None => {
            them_v(o, thoat("(không rõ nhan đề)"));
        },
    }
    them(o, "</h1>");
    them(o, "<p class=\"phu\">Báo cáo sửa chính tả — ");
    them_so(o, kq.so_file);
    them(o, " file nội dung, ");
    them_so(o, kq.so_doan);
    them(o, " đoạn, ");
    them_so(o, kq.so_chu);
    them(o, " chữ.</p>");
    assert(o@ =~= o0 + tieu_de_html(*kq));
}

fn so_lieu_html_exec(o: &mut Vec<char>, kq: &KetQuaSach)
    ensures
        final(o)@ == old(o)@ + so_lieu_html(*kq),
{
    let ghost o0 = o@;
    them(o, "<div class=\"the\">");
    o_so_exec(o, kq.da_sua.len(), "phép sửa");
    o_so_exec(o, crate::xu_ly::so_loi_dang_ke(kq), "lỗi chữ nghĩa");
    o_so_exec(o, kq.chua_sua.len(), "chỗ ngờ, chưa sửa");
    them(o, "<div class=\"o\"><b>");
    if kq.kieu_dau == Kieu::Cu {
        them(o, "cũ");
    } else {
        them(o, "mới");
    }
    them(o, "</b><span>kiểu đặt dấu</span></div>");
    them(o, "</div>");
    assert(o@ =~= o0 + so_lieu_html(*kq));
}

fn canh_html_exec(o: &mut Vec<char>, kq: &KetQuaSach)
    ensures
        final(o)@ == old(o)@ + canh_html(*kq),
{
    let ghost o0 = o@;
    if !kq.co_mo_hinh {
        them(o, CANH_MO_HINH);
    }
    let ghost o1 = o@;
    assert(o1 =~= o0 + (if !kq.co_mo_hinh { CANH_MO_HINH@ } else { seq![] }));
    if kq.vuong_the > 0 {
        them(o, "<div class=\"canh\"><b>");
        them_so(o, kq.vuong_the);
        them(o, CANH_VUONG);
    }
    let ghost o2 = o@;
    assert(o2 =~= o1 + (if kq.vuong_the > 0 {
        "<div class=\"canh\"><b>"@ + so_muoi(kq.vuong_the as nat) + CANH_VUONG@
    } else {
        seq![]
    }));
    if thieu_so_exec(kq.dem_kieu.cu, kq.dem_kieu.moi) {
        them(o, CANH_KIEU_DAU);
        them_so(o, kq.dem_kieu.cu);
        them(o, CANH_KIEU_GIUA);
        them_so(o, kq.dem_kieu.moi);
        them(o, CANH_KIEU_CUOI);
    }
    assert(o@ =~= o0 + canh_html(*kq));
}


/// Một dòng của bảng đã sửa.
pub open spec fn hang_sua(d: DongV) -> Seq<char> {
    let (a, b) = cap_spec(d.a, d.b);
    "<tr><td><code class=\"cu\">"@ + ma_hoa_spec(a) + "</code><span class=\"mui\">→</span><code class=\"moi\">"@
        + ma_hoa_spec(b) + "</code></td><td class=\"ghi\">"@ + ma_hoa_spec(d.ly_do) + "</td><td class=\"n\">"@
        + so_muoi(d.n) + "</td></tr>"@
}

/// Nối các dòng của bảng đã sửa.
pub open spec fn cac_hang_sua(ds: Seq<DongV>) -> Seq<char>
    decreases ds.len(),
{
    if ds.len() == 0 {
        seq![]
    } else {
        cac_hang_sua(ds.drop_last()) + hang_sua(ds.last())
    }
}

/// `n` phần tử đầu (hoặc cả dãy nếu ngắn hơn).
pub open spec fn dau_toi<A>(s: Seq<A>, n: int) -> Seq<A> {
    if s.len() > n {
        s.take(n)
    } else {
        s
    }
}

/// Bảng HTML của một loại lỗi: tiêu đề kèm tổng số chỗ, tối đa 200 dòng, và một
/// dòng báo số kiểu sửa còn lại.
pub open spec fn nhom_html(l: Loai, tong: nat, ds: Seq<DongV>) -> Seq<char> {
    "<h2>"@ + ma_hoa_spec(ten_loai(l)) + " <span class=\"ghi\">— "@ + so_muoi(tong) + " chỗ</span></h2>"@
        + "<div class=\"cuon\"><table><tr><th>Sửa</th><th>Vì sao</th><th>Số lần</th></tr>"@
        + cac_hang_sua(dau_toi(ds, 200)) + (if ds.len() > 200 {
        "<tr><td colspan=\"3\" class=\"ghi\">… và "@ + so_muoi((ds.len() - 200) as nat)
            + " kiểu sửa khác cùng loại</td></tr>"@
    } else {
        seq![]
    }) + "</table></div>"@
}

/// Nối các bảng theo loại.
pub open spec fn cac_nhom_html(g: Seq<SuaDoiV>, ns: Seq<(Loai, Seq<DongV>)>) -> Seq<char>
    decreases ns.len(),
{
    if ns.len() == 0 {
        seq![]
    } else {
        cac_nhom_html(g, ns.drop_last()) + nhom_html(ns.last().0, muc_loai(g, ns.last().0).len(), ns.last().1)
    }
}

/// Phần "đã sửa" của báo cáo HTML.
pub open spec fn phan_sua_html(g: Seq<SuaDoiV>) -> Seq<char> {
    (if gom_spec(g).len() == 0 { "<h2>Đã sửa</h2><p class=\"ghi\">Không có gì để sửa.</p>"@ } else { seq![] })
        + cac_nhom_html(g, gom_spec(g))
}

fn hang_sua_exec(o: &mut Vec<char>, d: &Dong)
    ensures
        final(o)@ == old(o)@ + hang_sua(d@),
{
    let ghost o0 = o@;
    let (a, b) = cap(d.a.as_str(), d.b.as_str());
    them(o, "<tr><td><code class=\"cu\">");
    them_v(o, thoat(chuoi(a.as_slice()).as_str()));
    them(o, "</code><span class=\"mui\">→</span><code class=\"moi\">");
    them_v(o, thoat(chuoi(b.as_slice()).as_str()));
    them(o, "</code></td><td class=\"ghi\">");
    them_v(o, thoat(d.ly_do.as_str()));
    them(o, "</td><td class=\"n\">");
    them_so(o, d.n);
    them(o, "</td></tr>");
    assert(o@ =~= o0 + hang_sua(d@));
}

fn nhom_html_exec(o: &mut Vec<char>, l: Loai, tong: usize, ds: &Vec<Dong>)
    ensures
        final(o)@ == old(o)@ + nhom_html(l, tong as nat, dsd(ds@)),
{
    let ghost o0 = o@;
    let ghost g = dsd(ds@);
    them(o, "<h2>");
    them_v(o, thoat(l.ten()));
    them(o, " <span class=\"ghi\">— ");
    them_so(o, tong);
    them(o, " chỗ</span></h2>");
    them(o, "<div class=\"cuon\"><table><tr><th>Sửa</th><th>Vì sao</th><th>Số lần</th></tr>");
    let ghost o1 = o@;
    let het = if ds.len() > 200 { 200 } else { ds.len() };
    let mut i: usize = 0;
    assert(g.take(0) =~= Seq::<DongV>::empty());
    while i < het
        invariant
            i <= het,
            het <= ds@.len(),
            g == dsd(ds@),
            o@ == o1 + cac_hang_sua(g.take(i as int)),
        decreases het - i,
    {
        assert(g.take(i + 1).drop_last() =~= g.take(i as int));
        assert(g.take(i + 1).last() == ds@[i as int]@);
        hang_sua_exec(o, &ds[i]);
        i += 1;
    }
    assert(g.take(het as int) =~= dau_toi(g, 200));
    let ghost o2 = o@;
    if ds.len() > 200 {
        them(o, "<tr><td colspan=\"3\" class=\"ghi\">… và ");
        them_so(o, ds.len() - 200);
        them(o, " kiểu sửa khác cùng loại</td></tr>");
    }
    them(o, "</table></div>");
    assert(o@ =~= o0 + nhom_html(l, tong as nat, g));
}

fn phan_sua_html_exec(o: &mut Vec<char>, kq: &KetQuaSach)
    ensures
        final(o)@ == old(o)@ + phan_sua_html(dsv(kq.da_sua@)),
{
    let ghost o0 = o@;
    let ghost g = dsv(kq.da_sua@);
    let nhom = gom(kq);
    let ghost ns = nhom@.map_values(|p: (Loai, Vec<Dong>, usize)| (p.0, dsd(p.1@)));
    if nhom.len() == 0 {
        them(o, "<h2>Đã sửa</h2><p class=\"ghi\">Không có gì để sửa.</p>");
    }
    let ghost o1 = o@;
    let mut i: usize = 0;
    assert(ns.take(0) =~= Seq::<(Loai, Seq<DongV>)>::empty());
    while i < nhom.len()
        invariant
            i <= nhom@.len(),
            ns == nhom@.map_values(|p: (Loai, Vec<Dong>, usize)| (p.0, dsd(p.1@))),
            ns == gom_spec(g),
            g == dsv(kq.da_sua@),
            forall|q: int| 0 <= q < nhom@.len() ==> #[trigger] nhom@[q].2 == muc_loai(g, nhom@[q].0).len(),
            o@ == o1 + cac_nhom_html(g, ns.take(i as int)),
        decreases nhom.len() - i,
    {
        assert(ns.take(i + 1).drop_last() =~= ns.take(i as int));
        assert(ns.take(i + 1).last() == ns[i as int]);
        assert(ns[i as int] == (nhom@[i as int].0, dsd(nhom@[i as int].1@)));
        let tong = nhom[i].2;
        nhom_html_exec(o, nhom[i].0, tong, &nhom[i].1);
        i += 1;
    }
    assert(ns.take(ns.len() as int) =~= ns);
    assert(o@ =~= o0 + phan_sua_html(g));
}

/// Mục gom cho một chỗ ngờ: khoá (chữ trong sách, các ứng viên nối bằng `, `).
pub open spec fn muc_ngo(c: ChoXetV) -> DongV {
    DongV { a: c.goc, b: noi_phay(c.ung_vien), ly_do: seq![], n: 1 }
}

/// Một dòng của bảng chỗ ngờ.
pub open spec fn hang_ngo(d: DongV) -> Seq<char> {
    "<tr><td><code class=\"cu\">"@ + ma_hoa_spec(d.a) + "</code></td><td class=\"ghi\">"@ + ma_hoa_spec(d.b)
        + "</td><td class=\"n\">"@ + so_muoi(d.n) + "</td></tr>"@
}

/// Nối các dòng của bảng chỗ ngờ.
pub open spec fn cac_hang_ngo(ds: Seq<DongV>) -> Seq<char>
    decreases ds.len(),
{
    if ds.len() == 0 {
        seq![]
    } else {
        cac_hang_ngo(ds.drop_last()) + hang_ngo(ds.last())
    }
}

/// Phần "chỗ ngờ, chưa sửa" của báo cáo HTML: các chỗ ngờ gom theo (chữ, ứng
/// viên), tối đa 300 dòng.
pub open spec fn phan_ngo_html(cs: Seq<ChoXetV>) -> Seq<char> {
    "<h2>Chỗ ngờ, chưa sửa</h2>"@ + if cs.len() == 0 {
        "<p class=\"ghi\">Không còn chỗ nào để ngỏ.</p>"@
    } else {
        LOI_DAN_NGO@ + "<div class=\"cuon\"><table><tr><th>Chữ trong sách</th><th>Có thể là</th><th>Số lần</th></tr>"@
            + cac_hang_ngo(dau_toi(bang_gom(cs.map_values(|c: ChoXetV| muc_ngo(c))), 300)) + "</table></div>"@
    }
}

fn muc_ngo_exec(cs: &Vec<ChoXet>) -> (r: Vec<Dong>)
    ensures
        dsd(r@) == dscx(cs@).map_values(|c: ChoXetV| muc_ngo(c)),
{
    let ghost g = dscx(cs@);
    let mut r: Vec<Dong> = Vec::new();
    let mut i: usize = 0;
    while i < cs.len()
        invariant
            i <= cs@.len(),
            g == dscx(cs@),
            dsd(r@) == g.take(i as int).map_values(|c: ChoXetV| muc_ngo(c)),
        decreases cs.len() - i,
    {
        let c = &cs[i];
        assert(g[i as int] == c@);
        let ghost truoc = dsd(r@);
        let uv = noi_phay_exec(&c.ung_vien);
        r.push(Dong { a: chuoi(ky_tu(c.goc.as_str()).as_slice()), b: chuoi(uv.as_slice()), ly_do: String::new(), n: 1 });
        assert(dsd(r@) =~= truoc.push(muc_ngo(g[i as int])));
        assert(g.take(i + 1).map_values(|c: ChoXetV| muc_ngo(c)) =~= g.take(i as int).map_values(
            |c: ChoXetV| muc_ngo(c),
        ).push(muc_ngo(g[i as int])));
        i += 1;
    }
    assert(g.take(g.len() as int) =~= g);
    r
}

fn hang_ngo_exec(o: &mut Vec<char>, d: &Dong)
    ensures
        final(o)@ == old(o)@ + hang_ngo(d@),
{
    let ghost o0 = o@;
    them(o, "<tr><td><code class=\"cu\">");
    them_v(o, thoat(d.a.as_str()));
    them(o, "</code></td><td class=\"ghi\">");
    them_v(o, thoat(d.b.as_str()));
    them(o, "</td><td class=\"n\">");
    them_so(o, d.n);
    them(o, "</td></tr>");
    assert(o@ =~= o0 + hang_ngo(d@));
}

fn phan_ngo_html_exec(o: &mut Vec<char>, kq: &KetQuaSach)
    ensures
        final(o)@ == old(o)@ + phan_ngo_html(dscx(kq.chua_sua@)),
{
    let ghost o0 = o@;
    them(o, "<h2>Chỗ ngờ, chưa sửa</h2>");
    if kq.chua_sua.len() == 0 {
        them(o, "<p class=\"ghi\">Không còn chỗ nào để ngỏ.</p>");
        assert(o@ =~= o0 + phan_ngo_html(dscx(kq.chua_sua@)));
        return;
    }
    them(o, LOI_DAN_NGO);
    them(o, "<div class=\"cuon\"><table><tr><th>Chữ trong sách</th><th>Có thể là</th><th>Số lần</th></tr>");
    let ghost o1 = o@;
    let v = bang_gom_exec(muc_ngo_exec(&kq.chua_sua));
    let ghost g = dsd(v@);
    let het = if v.len() > 300 { 300 } else { v.len() };
    let mut i: usize = 0;
    assert(g.take(0) =~= Seq::<DongV>::empty());
    while i < het
        invariant
            i <= het,
            het <= v@.len(),
            g == dsd(v@),
            o@ == o1 + cac_hang_ngo(g.take(i as int)),
        decreases het - i,
    {
        assert(g.take(i + 1).drop_last() =~= g.take(i as int));
        assert(g.take(i + 1).last() == v@[i as int]@);
        hang_ngo_exec(o, &v[i]);
        i += 1;
    }
    assert(g.take(het as int) =~= dau_toi(g, 300));
    them(o, "</table></div>");
    assert(o@ =~= o0 + phan_ngo_html(dscx(kq.chua_sua@)));
}

/// Báo cáo HTML đầy đủ.
pub open spec fn html_spec(kq: KetQuaSach) -> Seq<char> {
    tieu_de_html(kq) + so_lieu_html(kq) + canh_html(kq) + phan_sua_html(dsv(kq.da_sua@)) + phan_ngo_html(
        dscx(kq.chua_sua@),
    ) + "</body></html>"@
}

/// Báo cáo HTML: đã đổi những gì, vì sao, và chỗ nào ngờ mà không đổi.
pub fn html(kq: &KetQuaSach) -> (r: String)
    ensures
        r@ == html_spec(*kq),
{
    let mut o: Vec<char> = Vec::new();
    tieu_de_html_exec(&mut o, kq);
    so_lieu_html_exec(&mut o, kq);
    canh_html_exec(&mut o, kq);
    phan_sua_html_exec(&mut o, kq);
    phan_ngo_html_exec(&mut o, kq);
    them(&mut o, "</body></html>");
    assert(o@ =~= html_spec(*kq));
    chuoi(o.as_slice())
}


/// Số lỗi chữ nghĩa (không kể các loại chỉ dọn hình thức).
pub open spec fn so_dang_ke(kq: KetQuaSach) -> nat {
    dsv(kq.da_sua@).filter(|x: SuaDoiV| !chi_hinh_thuc(x.loai)).len()
}

/// Hai dòng đầu của bản chữ thuần, và dòng vướng thẻ nếu có.
pub open spec fn dau_chu(kq: KetQuaSach) -> Seq<char> {
    nhan_de_hien(kq.nhan_de) + "\n"@ + so_muoi(kq.so_file as nat) + " file, "@ + so_muoi(kq.so_doan as nat)
        + " đoạn, "@ + so_muoi(kq.so_chu as nat) + " chữ\n"@ + so_muoi(kq.da_sua@.len()) + " phép sửa ("@
        + so_muoi(so_dang_ke(kq)) + " lỗi chữ nghĩa), "@ + so_muoi(kq.chua_sua@.len()) + " chỗ ngờ chưa sửa\n"@
        + (if kq.vuong_the > 0 {
        so_muoi(kq.vuong_the as nat) + " chỗ vướng thẻ HTML nên không vá được\n"@
    } else {
        seq![]
    }) + "\n"@
}

/// Một dòng của một loại trong bản chữ thuần.
pub open spec fn hang_chu(d: DongV) -> Seq<char> {
    let (a, b) = cap_spec(d.a, d.b);
    "   "@ + a + " → "@ + b + "   ×"@ + so_muoi(d.n) + "\n"@
}

/// Nối các dòng của một loại.
pub open spec fn cac_hang_chu(ds: Seq<DongV>) -> Seq<char>
    decreases ds.len(),
{
    if ds.len() == 0 {
        seq![]
    } else {
        cac_hang_chu(ds.drop_last()) + hang_chu(ds.last())
    }
}

/// Một loại trong bản chữ thuần: tiêu đề kèm tổng số chỗ, tối đa 40 dòng.
pub open spec fn nhom_chu(l: Loai, tong: nat, ds: Seq<DongV>) -> Seq<char> {
    "── "@ + ten_loai(l) + " ("@ + so_muoi(tong) + " chỗ)\n"@ + cac_hang_chu(dau_toi(ds, 40)) + (if ds.len() > 40 {
        "   … và "@ + so_muoi((ds.len() - 40) as nat) + " kiểu khác\n"@
    } else {
        seq![]
    }) + "\n"@
}

/// Nối các loại trong bản chữ thuần.
pub open spec fn cac_nhom_chu(g: Seq<SuaDoiV>, ns: Seq<(Loai, Seq<DongV>)>) -> Seq<char>
    decreases ns.len(),
{
    if ns.len() == 0 {
        seq![]
    } else {
        cac_nhom_chu(g, ns.drop_last()) + nhom_chu(ns.last().0, muc_loai(g, ns.last().0).len(), ns.last().1)
    }
}

/// Một chỗ ngờ trong bản chữ thuần.
pub open spec fn hang_ngo_chu(c: ChoXetV) -> Seq<char> {
    "   "@ + c.goc + "  →?  "@ + noi_phay(c.ung_vien) + "\n"@
}

/// Nối các chỗ ngờ trong bản chữ thuần.
pub open spec fn cac_ngo_chu(cs: Seq<ChoXetV>) -> Seq<char>
    decreases cs.len(),
{
    if cs.len() == 0 {
        seq![]
    } else {
        cac_ngo_chu(cs.drop_last()) + hang_ngo_chu(cs.last())
    }
}

/// Bản chữ thuần của báo cáo.
pub open spec fn chu_spec(kq: KetQuaSach) -> Seq<char> {
    let g = dsv(kq.da_sua@);
    let cs = dscx(kq.chua_sua@);
    dau_chu(kq) + cac_nhom_chu(g, gom_spec(g)) + (if cs.len() > 0 {
        "── Chỗ ngờ, chưa sửa ("@ + so_muoi(cs.len()) + ")\n"@ + cac_ngo_chu(dau_toi(cs, 40))
    } else {
        seq![]
    })
}

/// Dòng nhan đề và dòng đếm file, đoạn, chữ của bản chữ thuần.
pub open spec fn dau_chu_mot(kq: KetQuaSach) -> Seq<char> {
    nhan_de_hien(kq.nhan_de) + "\n"@ + so_muoi(kq.so_file as nat) + " file, "@ + so_muoi(kq.so_doan as nat)
        + " đoạn, "@ + so_muoi(kq.so_chu as nat) + " chữ\n"@
}

/// Dòng đếm phép sửa và chỗ ngờ của bản chữ thuần.
pub open spec fn dau_chu_hai(kq: KetQuaSach) -> Seq<char> {
    so_muoi(kq.da_sua@.len()) + " phép sửa ("@ + so_muoi(so_dang_ke(kq)) + " lỗi chữ nghĩa), "@ + so_muoi(
        kq.chua_sua@.len(),
    ) + " chỗ ngờ chưa sửa\n"@
}

fn dau_chu_mot_exec(o: &mut Vec<char>, kq: &KetQuaSach)
    ensures
        final(o)@ == old(o)@ + dau_chu_mot(*kq),
{
    let ghost o0 = o@;
    match &kq.nhan_de {
        Some(t) => them(o, t.as_str()),
        None => them(o, "(không rõ nhan đề)"),
    }
    them(o, "\n");
    them_so(o, kq.so_file);
    them(o, " file, ");
    them_so(o, kq.so_doan);
    them(o, " đoạn, ");
    them_so(o, kq.so_chu);
    them(o, " chữ\n");
    assert(o@ =~= o0 + dau_chu_mot(*kq));
}

fn dau_chu_hai_exec(o: &mut Vec<char>, kq: &KetQuaSach)
    ensures
        final(o)@ == old(o)@ + dau_chu_hai(*kq),
{
    let ghost o0 = o@;
    them_so(o, kq.da_sua.len());
    them(o, " phép sửa (");
    them_so(o, crate::xu_ly::so_loi_dang_ke(kq));
    them(o, " lỗi chữ nghĩa), ");
    them_so(o, kq.chua_sua.len());
    them(o, " chỗ ngờ chưa sửa\n");
    assert(o@ =~= o0 + dau_chu_hai(*kq));
}

fn dau_chu_exec(o: &mut Vec<char>, kq: &KetQuaSach)
    ensures
        final(o)@ == old(o)@ + dau_chu(*kq),
{
    let ghost o0 = o@;
    dau_chu_mot_exec(o, kq);
    dau_chu_hai_exec(o, kq);
    let ghost o1 = o@;
    if kq.vuong_the > 0 {
        them_so(o, kq.vuong_the);
        them(o, " chỗ vướng thẻ HTML nên không vá được\n");
    }
    them(o, "\n");
    assert(dau_chu(*kq) =~= dau_chu_mot(*kq) + dau_chu_hai(*kq) + (if kq.vuong_the > 0 {
        so_muoi(kq.vuong_the as nat) + " chỗ vướng thẻ HTML nên không vá được\n"@
    } else {
        seq![]
    }) + "\n"@);
    assert(o@ =~= o0 + dau_chu(*kq));
}

fn hang_chu_exec(o: &mut Vec<char>, d: &Dong)
    ensures
        final(o)@ == old(o)@ + hang_chu(d@),
{
    let ghost o0 = o@;
    let (a, b) = cap(d.a.as_str(), d.b.as_str());
    them(o, "   ");
    them_v(o, a);
    them(o, " → ");
    them_v(o, b);
    them(o, "   ×");
    them_so(o, d.n);
    them(o, "\n");
    assert(o@ =~= o0 + hang_chu(d@));
}

#[verifier::rlimit(40)]
fn nhom_chu_exec(o: &mut Vec<char>, l: Loai, tong: usize, ds: &Vec<Dong>)
    ensures
        final(o)@ == old(o)@ + nhom_chu(l, tong as nat, dsd(ds@)),
{
    let ghost o0 = o@;
    let ghost g = dsd(ds@);
    them(o, "── ");
    them(o, l.ten());
    them(o, " (");
    them_so(o, tong);
    them(o, " chỗ)\n");
    let ghost o1 = o@;
    let het = if ds.len() > 40 { 40 } else { ds.len() };
    let mut i: usize = 0;
    assert(g.take(0) =~= Seq::<DongV>::empty());
    while i < het
        invariant
            i <= het,
            het <= ds@.len(),
            g == dsd(ds@),
            o@ == o1 + cac_hang_chu(g.take(i as int)),
        decreases het - i,
    {
        assert(g.take(i + 1).drop_last() =~= g.take(i as int));
        assert(g.take(i + 1).last() == ds@[i as int]@);
        hang_chu_exec(o, &ds[i]);
        i += 1;
    }
    assert(g.take(het as int) =~= dau_toi(g, 40));
    if ds.len() > 40 {
        them(o, "   … và ");
        them_so(o, ds.len() - 40);
        them(o, " kiểu khác\n");
    }
    them(o, "\n");
    assert(o@ =~= o0 + nhom_chu(l, tong as nat, g));
}

fn ngo_chu_exec(o: &mut Vec<char>, cs: &Vec<ChoXet>)
    ensures
        final(o)@ == old(o)@ + (if cs@.len() > 0 {
            "── Chỗ ngờ, chưa sửa ("@ + so_muoi(cs@.len()) + ")\n"@ + cac_ngo_chu(dau_toi(dscx(cs@), 40))
        } else {
            seq![]
        }),
{
    let ghost o0 = o@;
    if cs.len() == 0 {
        assert(o@ =~= o0 + Seq::<char>::empty());
        return;
    }
    let ghost g = dscx(cs@);
    them(o, "── Chỗ ngờ, chưa sửa (");
    them_so(o, cs.len());
    them(o, ")\n");
    let ghost o1 = o@;
    let het = if cs.len() > 40 { 40 } else { cs.len() };
    let mut i: usize = 0;
    assert(g.take(0) =~= Seq::<ChoXetV>::empty());
    while i < het
        invariant
            i <= het,
            het <= cs@.len(),
            g == dscx(cs@),
            o@ == o1 + cac_ngo_chu(g.take(i as int)),
        decreases het - i,
    {
        assert(g.take(i + 1).drop_last() =~= g.take(i as int));
        assert(g.take(i + 1).last() == cs@[i as int]@);
        let ghost o2 = o@;
        them(o, "   ");
        them(o, cs[i].goc.as_str());
        them(o, "  →?  ");
        them_v(o, noi_phay_exec(&cs[i].ung_vien));
        them(o, "\n");
        assert(o@ =~= o2 + hang_ngo_chu(g[i as int]));
        i += 1;
    }
    assert(g.take(het as int) =~= dau_toi(g, 40));
}

/// Bản chữ thuần, cho người muốn đọc trong terminal hoặc chép vào ghi chú.
pub fn chu(kq: &KetQuaSach) -> (r: String)
    ensures
        r@ == chu_spec(*kq),
{
    let mut o: Vec<char> = Vec::new();
    dau_chu_exec(&mut o, kq);
    let ghost o1 = o@;
    let ghost g = dsv(kq.da_sua@);
    let nhom = gom(kq);
    let ghost ns = nhom@.map_values(|p: (Loai, Vec<Dong>, usize)| (p.0, dsd(p.1@)));
    let mut i: usize = 0;
    assert(ns.take(0) =~= Seq::<(Loai, Seq<DongV>)>::empty());
    while i < nhom.len()
        invariant
            i <= nhom@.len(),
            ns == nhom@.map_values(|p: (Loai, Vec<Dong>, usize)| (p.0, dsd(p.1@))),
            ns == gom_spec(g),
            g == dsv(kq.da_sua@),
            forall|q: int| 0 <= q < nhom@.len() ==> #[trigger] nhom@[q].2 == muc_loai(g, nhom@[q].0).len(),
            o@ == o1 + cac_nhom_chu(g, ns.take(i as int)),
        decreases nhom.len() - i,
    {
        assert(ns.take(i + 1).drop_last() =~= ns.take(i as int));
        assert(ns.take(i + 1).last() == ns[i as int]);
        assert(ns[i as int] == (nhom@[i as int].0, dsd(nhom@[i as int].1@)));
        let tong = nhom[i].2;
        nhom_chu_exec(&mut o, nhom[i].0, tong, &nhom[i].1);
        i += 1;
    }
    assert(ns.take(ns.len() as int) =~= ns);
    ngo_chu_exec(&mut o, &kq.chua_sua);
    assert(o@ =~= chu_spec(*kq));
    chuoi(o.as_slice())
}

/// Đúng một dòng, cho thanh trạng thái.
pub open spec fn mot_dong_spec(kq: KetQuaSach) -> Seq<char> {
    "Đã sửa "@ + so_muoi(kq.da_sua@.len()) + " chỗ ("@ + so_muoi(so_dang_ke(kq)) + " lỗi chữ nghĩa)"@ + (if kq.chua_sua@.len()
        == 0 {
        seq![]
    } else {
        ", "@ + so_muoi(kq.chua_sua@.len()) + " chỗ để ngỏ"@
    }) + " trên "@ + so_muoi(kq.so_doan as nat) + " đoạn."@
}

/// Đúng một dòng, cho thanh trạng thái.
pub fn mot_dong(kq: &KetQuaSach) -> (r: String)
    ensures
        r@ == mot_dong_spec(*kq),
{
    let mut o: Vec<char> = Vec::new();
    them(&mut o, "Đã sửa ");
    them_so(&mut o, kq.da_sua.len());
    them(&mut o, " chỗ (");
    them_so(&mut o, crate::xu_ly::so_loi_dang_ke(kq));
    them(&mut o, " lỗi chữ nghĩa)");
    if kq.chua_sua.len() > 0 {
        them(&mut o, ", ");
        them_so(&mut o, kq.chua_sua.len());
        them(&mut o, " chỗ để ngỏ");
    }
    them(&mut o, " trên ");
    them_so(&mut o, kq.so_doan);
    them(&mut o, " đoạn.");
    assert(o@ =~= mot_dong_spec(*kq));
    chuoi(o.as_slice())
}


/// Tổng số lần của các dòng gom.
pub open spec fn tong_lan(s: Seq<DongV>) -> int
    decreases s.len(),
{
    if s.len() == 0 {
        0
    } else {
        tong_lan(s.drop_last()) + s.last().n
    }
}

proof fn lemma_tong_lan_doi(s: Seq<DongV>, i: int, v: DongV)
    requires
        0 <= i < s.len(),
    ensures
        tong_lan(s.update(i, v)) == tong_lan(s) - s[i].n + v.n,
    decreases s.len(),
{
    if i < s.len() - 1 {
        lemma_tong_lan_doi(s.drop_last(), i, v);
        assert(s.update(i, v).drop_last() =~= s.drop_last().update(i, v));
    } else {
        assert(s.update(i, v).drop_last() =~= s.drop_last());
    }
}

proof fn lemma_tong_lan_chen(s: Seq<DongV>, x: DongV)
    ensures
        tong_lan(chen_dong(s, x)) == tong_lan(s) + x.n,
    decreases s.len(),
{
    if s.len() == 0 {
        assert(seq![x].drop_last() =~= Seq::<DongV>::empty());
        assert(tong_lan(seq![x]) == tong_lan(Seq::<DongV>::empty()) + x.n);
    } else if truoc_dong(x, s.last()) {
        lemma_tong_lan_chen(s.drop_last(), x);
        let c = chen_dong(s.drop_last(), x).push(s.last());
        assert(c.drop_last() =~= chen_dong(s.drop_last(), x));
        assert(tong_lan(c) == tong_lan(chen_dong(s.drop_last(), x)) + s.last().n);
    } else {
        assert(s.push(x).drop_last() =~= s);
        assert(tong_lan(s.push(x)) == tong_lan(s) + x.n);
    }
}

proof fn lemma_tong_lan_sap(s: Seq<DongV>)
    ensures
        tong_lan(sap_dong(s)) == tong_lan(s),
    decreases s.len(),
{
    if s.len() > 0 {
        lemma_tong_lan_sap(s.drop_last());
        lemma_tong_lan_chen(sap_dong(s.drop_last()), s.last());
    }
}

proof fn lemma_tim_khoa_co(nh: Seq<DongV>, a: Seq<char>, b: Seq<char>, i: int)
    requires
        0 <= i,
    ensures
        tim_khoa(nh, a, b, i) is None ==> forall|q: int| i <= q < nh.len() ==> !(#[trigger] nh[q].a == a && nh[q].b == b),
        tim_khoa(nh, a, b, i) matches Some(k) ==> i <= k < nh.len() && nh[k].a == a && nh[k].b == b,
    decreases nh.len() - i,
{
    if i < nh.len() && !(nh[i].a == a && nh[i].b == b) {
        lemma_tim_khoa_co(nh, a, b, i + 1);
    }
}

/// Gom không thêm bớt lần nào: tổng số lần của bảng gom bằng số mục đem gom, mỗi
/// khoá chỉ có một dòng, và sắp lại không đổi tổng ấy.
pub proof fn lemma_bang_gom_dem_du(s: Seq<DongV>)
    ensures
        tong_lan(gom_cap(s)) == s.len(),
        tong_lan(bang_gom(s)) == s.len(),
        forall|i: int, j: int|
            0 <= i < j < gom_cap(s).len() ==> !(#[trigger] gom_cap(s)[i].a == #[trigger] gom_cap(s)[j].a
                && gom_cap(s)[i].b == gom_cap(s)[j].b),
    decreases s.len(),
{
    if s.len() > 0 {
        lemma_bang_gom_dem_du(s.drop_last());
        let t = gom_cap(s.drop_last());
        let x = s.last();
        lemma_tim_khoa_co(t, x.a, x.b, 0);
        match tim_khoa(t, x.a, x.b, 0) {
            Some(i) => {
                lemma_tong_lan_doi(t, i, DongV { n: t[i].n + 1, ..t[i] });
            },
            None => {
                assert(t.push(DongV { n: 1, ..x }).drop_last() =~= t);
            },
        }
    }
    lemma_tong_lan_sap(gom_cap(s));
}


/// Các dòng xếp theo số lần không tăng.
pub open spec fn giam_dan(s: Seq<DongV>) -> bool {
    forall|i: int, j: int| 0 <= i < j < s.len() ==> #[trigger] s[i].n >= #[trigger] s[j].n
}

proof fn lemma_chen_dong_can_duoi(s: Seq<DongV>, x: DongV, m: nat)
    requires
        forall|i: int| 0 <= i < s.len() ==> #[trigger] s[i].n >= m,
        x.n >= m,
    ensures
        forall|k: int| 0 <= k < chen_dong(s, x).len() ==> #[trigger] chen_dong(s, x)[k].n >= m,
        chen_dong(s, x).len() == s.len() + 1,
    decreases s.len(),
{
    if s.len() > 0 && truoc_dong(x, s.last()) {
        lemma_chen_dong_can_duoi(s.drop_last(), x, m);
    }
}

proof fn lemma_chen_dong_giam(s: Seq<DongV>, x: DongV)
    requires
        giam_dan(s),
    ensures
        giam_dan(chen_dong(s, x)),
    decreases s.len(),
{
    if s.len() == 0 {
    } else if truoc_dong(x, s.last()) {
        let d = s.drop_last();
        assert(giam_dan(d));
        lemma_chen_dong_giam(d, x);
        lemma_chen_dong_can_duoi(d, x, s.last().n);
        let c = chen_dong(d, x);
        assert forall|i: int, j: int| 0 <= i < j < c.push(s.last()).len() implies #[trigger] c.push(s.last())[i].n
            >= #[trigger] c.push(s.last())[j].n by {
            if j == c.len() {
                assert(c[i].n >= s.last().n);
            } else {
                assert(c[i].n >= c[j].n);
            }
        }
    } else {
        assert forall|i: int, j: int| 0 <= i < j < s.push(x).len() implies #[trigger] s.push(x)[i].n
            >= #[trigger] s.push(x)[j].n by {
            if j == s.len() {
                assert(s[i].n >= s[s.len() - 1].n);
            } else {
                assert(s[i].n >= s[j].n);
            }
        }
    }
}

proof fn lemma_sap_dong_giam(s: Seq<DongV>)
    ensures
        giam_dan(sap_dong(s)),
    decreases s.len(),
{
    if s.len() > 0 {
        lemma_sap_dong_giam(s.drop_last());
        lemma_chen_dong_giam(sap_dong(s.drop_last()), s.last());
    }
}

/// Bảng gom xếp dòng nhiều lần lên trước.
pub proof fn lemma_bang_gom_xep_theo_so_lan(s: Seq<DongV>)
    ensures
        giam_dan(bang_gom(s)),
{
    lemma_sap_dong_giam(gom_cap(s));
}

} // verus!
