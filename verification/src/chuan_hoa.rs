//! Tầng chuẩn hoá: Unicode, ký tự vô hình, khoảng trắng, dấu câu.
//!
//! Tầng này **không đụng tới chữ nghĩa** — không đổi một chữ cái nào — nên sửa
//! được vô điều kiện.
//!
//! Cạm bẫy xuyên suốt là **dấu chấm và dấu phẩy trong con số**: tiếng Việt dùng
//! dấu phẩy làm dấu thập phân (`1,5 mét`) và dấu chấm phân nhóm hàng nghìn
//! (`1.000 đồng`). Nên mọi luật "thêm khoảng trắng sau dấu" phải bỏ qua khi hai
//! bên đều là chữ số.
use vstd::prelude::*;
use unicode_normalization::UnicodeNormalization;
use vstd::utf8::encode_utf8;
use crate::chuoi::{
    bang_nhau, bang_vi_tri, chuoi, do_dai_byte, hex_bon, ky_tu, la_ascii_so, lemma_ranh_gioi, lemma_vt_byte_buoc,
    lemma_vt_byte_tang, noi, so_muoi, viet_hex_bon, viet_so, vt_byte,
};
use crate::hoa_thuong::{hoa, la_hoa, la_thuong, thuong};
use crate::sua::{ap_spec, doi_mot_roi_nhau, dsv, lemma_ap_du, nam_gon, roi_nhau, sap_xep, DoChac, Loai, SuaDoi, SuaDoiV};

verus! {

/// Những gì được phép sửa. Mấy mục cuối mặc định tắt vì chúng đổi **kiểu chữ**
/// chứ không sửa lỗi — người biên tập có thể cố ý chọn kiểu ấy.
#[derive(Debug, Clone)]
pub struct CaiDat {
    /// Dựng lại tổ hợp Unicode (NFC) và bỏ ký tự vô hình.
    pub unicode: bool,
    /// Gộp khoảng trắng lặp, bỏ khoảng trắng đầu/cuối đoạn.
    pub khoang_trang: bool,
    /// Khoảng trắng quanh dấu câu.
    pub dau_cau: bool,
    /// Gộp bốn chấm trở lên về ba. Hai chấm để nguyên vì có thể là cố ý.
    pub gom_dau_cham: bool,
    /// Đổi ba chấm `...` thành một ký tự `…`. Mặc định **tắt**.
    pub dung_ky_tu_ba_cham: bool,
    /// Đổi nháy thẳng thành nháy cong. Mặc định **tắt**.
    pub nhay_cong: bool,
}

impl Default for CaiDat {
    fn default() -> (r: Self)
        ensures
            r == (CaiDat {
                unicode: true,
                khoang_trang: true,
                dau_cau: true,
                gom_dau_cham: true,
                dung_ky_tu_ba_cham: false,
                nhay_cong: false,
            }),
    {
        CaiDat {
            unicode: true,
            khoang_trang: true,
            dau_cau: true,
            gom_dau_cham: true,
            dung_ky_tu_ba_cham: false,
            nhay_cong: false,
        }
    }
}

/// Không phép sửa nào, hoặc đúng một.
pub open spec fn mot_phep(o: Option<SuaDoiV>) -> Seq<SuaDoiV> {
    match o {
        Some(x) => seq![x],
        None => seq![],
    }
}

/// Ký tự vô hình cần bỏ hẳn: khoảng trắng rộng bằng không, không nối, nối, dấu
/// thứ tự byte, gạch nối mềm, nối từ.
pub open spec fn vo_hinh(c: char) -> bool {
    c == '\u{200B}' || c == '\u{200C}' || c == '\u{200D}' || c == '\u{FEFF}' || c == '\u{00AD}'
        || c == '\u{2060}'
}

/// Ký tự khoảng trắng lạ cần đưa về khoảng trắng thường.
pub open spec fn khoang_trang_la(c: char) -> bool {
    c == '\u{00A0}' || (0x2002 <= (c as u32) && (c as u32) <= 0x200A) || c == '\u{202F}' || c == '\u{205F}'
        || c == '\u{3000}' || c == '\t'
}

fn la_vo_hinh(c: char) -> (r: bool)
    ensures
        r == vo_hinh(c),
{
    c == '\u{200B}' || c == '\u{200C}' || c == '\u{200D}' || c == '\u{FEFF}' || c == '\u{00AD}' || c == '\u{2060}'
}

/// Ký tự khoảng trắng lạ: khoảng trắng không ngắt, các khoảng trắng cỡ chữ
/// `U+2002`…`U+200A`, khoảng trắng hẹp, khoảng trắng toán học, khoảng trắng
/// chữ Hán, và tab.
pub fn la_khoang_trang_la(c: char) -> (r: bool)
    ensures
        r == khoang_trang_la(c),
{
    let u = c as u32;
    c == '\u{00A0}' || (0x2002 <= u && u <= 0x200A) || c == '\u{202F}' || c == '\u{205F}' || c == '\u{3000}'
        || c == '\t'
}

/// Phép sửa Unicode cho ký tự `c` bắt đầu ở byte `vt`.
pub open spec fn phep_ky_tu(c: char, vt: nat) -> Option<SuaDoiV> {
    if vo_hinh(c) {
        Some(
            SuaDoiV {
                dau: vt,
                cuoi: vt + do_dai_byte(c),
                goc: seq![c],
                thay_bang: seq![],
                loai: Loai::Unicode,
                do_chac: DoChac::Chac,
                ly_do: "bỏ ký tự vô hình U+"@ + hex_bon(c as u32 as nat),
            },
        )
    } else if khoang_trang_la(c) {
        Some(
            SuaDoiV {
                dau: vt,
                cuoi: vt + do_dai_byte(c),
                goc: seq![c],
                thay_bang: seq![' '],
                loai: Loai::Unicode,
                do_chac: DoChac::Chac,
                ly_do: "U+"@ + hex_bon(c as u32 as nat) + " thành khoảng trắng thường"@,
            },
        )
    } else {
        None
    }
}

/// Các phép sửa Unicode cho `n` ký tự đầu của `s`.
pub open spec fn unicode_den(s: Seq<char>, n: int) -> Seq<SuaDoiV>
    decreases n,
{
    if n <= 0 {
        seq![]
    } else {
        unicode_den(s, n - 1) + mot_phep(phep_ky_tu(s[n - 1], vt_byte(s, n - 1)))
    }
}

fn phep_ky_tu_exec(c: char, vt: usize, vt2: usize) -> (r: Option<SuaDoi>)
    requires
        vt2 == vt + do_dai_byte(c),
    ensures
        match r {
            Some(x) => phep_ky_tu(c, vt as nat) == Some(x@),
            None => phep_ky_tu(c, vt as nat) is None,
        },
{
    let mot = vec![c];
    assert(mot@ =~= seq![c]);
    let goc = chuoi(&mot);
    if la_vo_hinh(c) {
        let ly_do = chuoi(&noi(&ky_tu("bỏ ký tự vô hình U+"), &viet_hex_bon(c as u32)));
        let rong = "";
        proof {
            reveal_strlit("");
        }
        assert(rong@ =~= Seq::<char>::empty());
        Some(SuaDoi::moi(vt..vt2, goc.as_str(), rong, Loai::Unicode, DoChac::Chac, ly_do.as_str()))
    } else if la_khoang_trang_la(c) {
        let dau = noi(&ky_tu("U+"), &viet_hex_bon(c as u32));
        let ly_do = chuoi(&noi(&dau, &ky_tu(" thành khoảng trắng thường")));
        let cach = " ";
        proof {
            reveal_strlit(" ");
        }
        assert(cach@ =~= seq![' ']);
        Some(SuaDoi::moi(vt..vt2, goc.as_str(), cach, Loai::Unicode, DoChac::Chac, ly_do.as_str()))
    } else {
        None
    }
}

/// Bước 1 — Unicode: bỏ ký tự vô hình, đưa khoảng trắng lạ về khoảng trắng
/// thường. Trả về danh sách phép sửa trên `van_ban`, theo thứ tự vị trí.
pub fn soat_unicode(van_ban: &str, cd: &CaiDat) -> (r: Vec<SuaDoi>)
    ensures
        dsv(r@) == (if cd.unicode { unicode_den(van_ban@, van_ban@.len() as int) } else { seq![] }),
{
    if !cd.unicode {
        let r: Vec<SuaDoi> = Vec::new();
        assert(dsv(r@) =~= Seq::<SuaDoiV>::empty());
        return r;
    }
    let v = ky_tu(van_ban);
    let b = bang_vi_tri(van_ban);
    let mut ra: Vec<SuaDoi> = Vec::new();
    let mut k: usize = 0;
    while k < v.len()
        invariant
            k <= v.len(),
            v@ == van_ban@,
            b@.len() == van_ban@.len() + 1,
            forall|q: int| 0 <= q <= van_ban@.len() ==> #[trigger] b@[q] == vt_byte(van_ban@, q),
            dsv(ra@) == unicode_den(van_ban@, k as int),
        decreases v.len() - k,
    {
        proof {
            lemma_vt_byte_buoc(van_ban@, k as int);
        }
        let ghost truoc = dsv(ra@);
        match phep_ky_tu_exec(v[k], b[k], b[k + 1]) {
            Some(x) => {
                ra.push(x);
                assert(dsv(ra@) =~= truoc + seq![ra@[truoc.len() as int]@]);
            },
            None => {
                assert(mot_phep(phep_ky_tu(van_ban@[k as int], vt_byte(van_ban@, k as int))) =~= seq![]);
            },
        }
        k += 1;
    }
    ra
}

/// Kết quả của `UnicodeNormalization::nfc` trên một chuỗi.
pub uninterp spec fn nfc_cua(s: Seq<char>) -> Seq<char>;

/// Gọi `nfc()` của `unicode_normalization` rồi gom thành chuỗi; kết quả là
/// [`nfc_cua`] của chuỗi vào, và đã ở dạng NFC: dựng lại NFC lần nữa thì không
/// đổi (dạng chuẩn hoá của Unicode là luỹ đẳng, UAX #15).
#[verifier::external_body]
pub(crate) fn nfc(s: &str) -> (r: String)
    ensures
        r@ == nfc_cua(s@),
        nfc_cua(r@) == r@,
{
    s.nfc().collect()
}

/// Chọn kết quả dựng lại NFC: `None` khi bản NFC trùng văn bản gốc, không thì
/// chính bản NFC.
pub fn chon_nfc(van_ban: &str, ban_nfc: String) -> (r: Option<String>)
    ensures
        r is None <==> ban_nfc@ == van_ban@,
        r matches Some(x) ==> x@ == ban_nfc@,
{
    if bang_nhau(&ky_tu(ban_nfc.as_str()), &ky_tu(van_ban)) {
        None
    } else {
        Some(ban_nfc)
    }
}

/// Bước 1b — dựng lại tổ hợp NFC. Trả `None` khi văn bản đã ở dạng NFC.
///
/// Tách riêng khỏi [`soat_unicode`] vì NFC gộp nhiều ký tự thành một nên đổi
/// hẳn độ dài chuỗi.
pub fn dung_lai_nfc(van_ban: &str) -> (r: Option<String>)
    ensures
        r is None <==> nfc_cua(van_ban@) == van_ban@,
        r matches Some(x) ==> x@ == nfc_cua(van_ban@),
        r matches Some(x) ==> nfc_cua(x@) == x@,
{
    let ban = nfc(van_ban);
    chon_nfc(van_ban, ban)
}


/// `n` lần ký tự `c`.
pub open spec fn lap(c: char, n: nat) -> Seq<char> {
    Seq::new(n, |_i: int| c)
}

fn lap_exec(c: char, n: usize) -> (r: Vec<char>)
    ensures
        r@ == lap(c, n as nat),
{
    let mut r: Vec<char> = Vec::new();
    let mut i: usize = 0;
    while i < n
        invariant
            i <= n,
            r@ =~= lap(c, i as nat),
        decreases n - i,
    {
        r.push(c);
        i += 1;
    }
    r
}

/// Chỉ số đầu tiên từ `i` trở đi mà ký tự không còn là `c` (hoặc cuối chuỗi).
pub open spec fn het_lap(s: Seq<char>, i: int, c: char) -> int
    decreases s.len() - i,
{
    if i < 0 || i >= s.len() || s[i] != c {
        i
    } else {
        het_lap(s, i + 1, c)
    }
}

/// Dải lặp ký tự `c` bắt đầu từ `i` nằm trong chuỗi và dừng ở ký tự khác `c`.
pub proof fn lemma_het_lap(s: Seq<char>, i: int, c: char)
    requires
        0 <= i <= s.len(),
    ensures
        i <= het_lap(s, i, c) <= s.len(),
        i < s.len() && s[i] == c ==> i < het_lap(s, i, c),
        forall|q: int| i <= q < het_lap(s, i, c) ==> s[q] == c,
        het_lap(s, i, c) == s.len() || s[het_lap(s, i, c)] != c,
    decreases s.len() - i,
{
    if i < s.len() && s[i] == c {
        lemma_het_lap(s, i + 1, c);
    }
}

/// Chỉ số ngay sau ký tự cuối cùng không phải khoảng trắng trong `s[..j]`.
pub open spec fn trang_cuoi(s: Seq<char>, j: int) -> int
    decreases j,
{
    if j <= 0 || j > s.len() || s[j - 1] != ' ' {
        j
    } else {
        trang_cuoi(s, j - 1)
    }
}

/// Dải dấu cách liền trước vị trí `j` nằm trong chuỗi và dừng ở ký tự khác dấu cách.
pub proof fn lemma_trang_cuoi(s: Seq<char>, j: int)
    requires
        0 <= j <= s.len(),
    ensures
        0 <= trang_cuoi(s, j) <= j,
        forall|q: int| trang_cuoi(s, j) <= q < j ==> s[q] == ' ',
        trang_cuoi(s, j) == 0 || s[trang_cuoi(s, j) - 1] != ' ',
    decreases j,
{
    if j > 0 && s[j - 1] == ' ' {
        lemma_trang_cuoi(s, j - 1);
    }
}

/// Ký tự ASCII chiếm đúng một byte, nên một dải ký tự ASCII dài bao nhiêu ký tự
/// thì bấy nhiêu byte.
pub proof fn lemma_vt_ascii(s: Seq<char>, a: int, b: int)
    requires
        0 <= a <= b <= s.len(),
        forall|q: int| a <= q < b ==> (s[q] as u32) < 0x80,
    ensures
        vt_byte(s, b) == vt_byte(s, a) + (b - a),
    decreases b - a,
{
    if a < b {
        lemma_vt_ascii(s, a, b - 1);
        lemma_vt_byte_buoc(s, b - 1);
    }
}

/// Phép gộp dải khoảng trắng `s[a..b]` về một khoảng trắng.
pub open spec fn gop_trang(s: Seq<char>, a: int, b: int) -> SuaDoiV {
    SuaDoiV {
        dau: vt_byte(s, a),
        cuoi: vt_byte(s, b),
        goc: lap(' ', (b - a) as nat),
        thay_bang: seq![' '],
        loai: Loai::KhoangTrang,
        do_chac: DoChac::Chac,
        ly_do: "gộp "@ + so_muoi((b - a) as nat) + " khoảng trắng"@,
    }
}

/// Các phép gộp khoảng trắng lặp (hai trở lên) từ chỉ số `i` trở đi.
pub open spec fn cum_trang(s: Seq<char>, i: int) -> Seq<SuaDoiV>
    decreases s.len() - i,
{
    if i < 0 || i >= s.len() {
        seq![]
    } else if s[i] == ' ' {
        let j = het_lap(s, i, ' ');
        proof {
            lemma_het_lap(s, i, ' ');
        }
        (if j - i > 1 { seq![gop_trang(s, i, j)] } else { seq![] }) + cum_trang(s, j)
    } else {
        cum_trang(s, i + 1)
    }
}

/// Các phép bắt đầu từ byte `m` trở đi.
pub open spec fn giu_tu(ds: Seq<SuaDoiV>, m: int) -> Seq<SuaDoiV> {
    ds.filter(|x: SuaDoiV| x.dau >= m)
}

/// Các phép kết thúc không quá byte `m`.
pub open spec fn giu_den(ds: Seq<SuaDoiV>, m: int) -> Seq<SuaDoiV> {
    ds.filter(|x: SuaDoiV| x.cuoi <= m)
}

proof fn lemma_giu_buoc(ds: Seq<SuaDoiV>, k: int, m: int)
    requires
        0 <= k < ds.len(),
    ensures
        giu_tu(ds.take(k + 1), m) == giu_tu(ds.take(k), m) + (if ds[k].dau >= m { seq![ds[k]] } else { seq![] }),
        giu_den(ds.take(k + 1), m) == giu_den(ds.take(k), m) + (if ds[k].cuoi <= m { seq![ds[k]] } else { seq![] }),
{
    reveal(Seq::filter);
    assert(ds.take(k + 1).drop_last() =~= ds.take(k));
    assert(ds.take(k + 1).last() == ds[k]);
    assert(giu_tu(ds.take(k + 1), m) =~= giu_tu(ds.take(k), m) + (if ds[k].dau >= m { seq![ds[k]] } else { seq![] }));
    assert(giu_den(ds.take(k + 1), m) =~= giu_den(ds.take(k), m) + (if ds[k].cuoi <= m { seq![ds[k]] } else { seq![] }));
}

fn loc_phep(ds: Vec<SuaDoi>, m: usize, theo_dau: bool) -> (r: Vec<SuaDoi>)
    ensures
        theo_dau ==> dsv(r@) == giu_tu(dsv(ds@), m as int),
        !theo_dau ==> dsv(r@) == giu_den(dsv(ds@), m as int),
{
    let ghost g = dsv(ds@);
    let mut r: Vec<SuaDoi> = Vec::new();
    let mut k: usize = 0;
    let mut ds = ds;
    proof {
        assert(g.take(0) =~= Seq::<SuaDoiV>::empty());
        reveal(Seq::filter);
        assert(dsv(r@) =~= Seq::<SuaDoiV>::empty());
    }
    while k < ds.len()
        invariant
            k <= ds.len(),
            g == dsv(ds@),
            theo_dau ==> dsv(r@) == giu_tu(g.take(k as int), m as int),
            !theo_dau ==> dsv(r@) == giu_den(g.take(k as int), m as int),
        decreases ds.len() - k,
    {
        proof {
            lemma_giu_buoc(g, k as int, m as int);
        }
        let giu = if theo_dau { ds[k].pham_vi.start >= m } else { ds[k].pham_vi.end <= m };
        if giu {
            let ghost truoc = dsv(r@);
            r.push(ds[k].clone());
            assert(dsv(r@) =~= truoc + seq![g[k as int]]);
        }
        k += 1;
    }
    assert(g.take(g.len() as int) =~= g);
    r
}

/// Bước 2 dưới dạng toán học: gộp khoảng trắng lặp, bỏ khoảng trắng ở hai đầu
/// đoạn. Phép đầu/cuối đoạn được ưu tiên: phép gộp nằm trong phần sắp cắt bị bỏ.
pub open spec fn khoang_trang_spec(s: Seq<char>) -> Seq<SuaDoiV> {
    let nb = vt_byte(s, s.len() as int);
    let d = het_lap(s, 0, ' ');
    let c = s.len() - trang_cuoi(s, s.len() as int);
    let g = cum_trang(s, 0);
    let g1 = if d > 0 {
        giu_tu(g, d).push(
            SuaDoiV {
                dau: 0,
                cuoi: d as nat,
                goc: lap(' ', d as nat),
                thay_bang: seq![],
                loai: Loai::KhoangTrang,
                do_chac: DoChac::Chac,
                ly_do: "bỏ khoảng trắng đầu đoạn"@,
            },
        )
    } else {
        g
    };
    if c > 0 && c < nb {
        giu_den(g1, nb - c).push(
            SuaDoiV {
                dau: (nb - c) as nat,
                cuoi: nb,
                goc: lap(' ', c as nat),
                thay_bang: seq![],
                loai: Loai::KhoangTrang,
                do_chac: DoChac::Chac,
                ly_do: "bỏ khoảng trắng cuối đoạn"@,
            },
        )
    } else {
        g1
    }
}


/// Phép `x` chỉ đụng tới một dải dấu cách bắt đầu ở ký tự thứ `a` của `s`: dải
/// `cuối - đầu` ký tự (dấu cách chiếm một byte) từ `a` đều là dấu cách.
pub open spec fn dai_trang(s: Seq<char>, x: SuaDoiV, a: int) -> bool {
    &&& 0 <= a
    &&& a + (x.cuoi - x.dau) <= s.len()
    &&& vt_byte(s, a) == x.dau
    &&& forall|q: int| a <= q < a + (x.cuoi - x.dau) ==> s[q] == ' '
}

/// Phép `x` thay một dải dấu cách bằng ít dấu cách hơn: chỉ bỏ dấu cách.
pub open spec fn chi_bo_trang(s: Seq<char>, x: SuaDoiV) -> bool {
    &&& exists|a: int| dai_trang(s, x, a)
    &&& x.thay_bang.len() < x.cuoi - x.dau
    &&& forall|t: int| 0 <= t < x.thay_bang.len() ==> x.thay_bang[t] == ' '
}

/// Phép gộp dải `s[a..b]`, với dải toàn dấu cách dài hơn một.
spec fn gop_tai(s: Seq<char>, x: SuaDoiV, a: int, b: int) -> bool {
    &&& 0 <= a
    &&& a + 1 < b
    &&& b <= s.len()
    &&& (forall|q: int| a <= q < b ==> s[q] == ' ')
    &&& x == gop_trang(s, a, b)
}

/// `x` là phép gộp một dải dấu cách bắt đầu từ chỉ số `i` trở đi.
spec fn co_gop(s: Seq<char>, x: SuaDoiV, i: int) -> bool {
    exists|a: int, b: int| i <= a && #[trigger] gop_tai(s, x, a, b)
}

proof fn lemma_cum_trang(s: Seq<char>, i: int)
    requires
        0 <= i <= s.len(),
    ensures
        forall|k: int| 0 <= k < cum_trang(s, i).len() ==> co_gop(s, #[trigger] cum_trang(s, i)[k], i),
        forall|k: int, l: int| 0 <= k < l < cum_trang(s, i).len() ==> (#[trigger] cum_trang(s, i)[k]).cuoi <= (#[trigger] cum_trang(s, i)[l]).dau,
    decreases s.len() - i,
{
    if i < s.len() {
        if s[i] == ' ' {
            let j = het_lap(s, i, ' ');
            lemma_het_lap(s, i, ' ');
            lemma_cum_trang(s, j);
            let t = cum_trang(s, j);
            let h: Seq<SuaDoiV> = if j - i > 1 { seq![gop_trang(s, i, j)] } else { seq![] };
            let c = cum_trang(s, i);
            assert(c == h + t);
            assert forall|k: int| 0 <= k < c.len() implies co_gop(s, #[trigger] c[k], i) by {
                if k < h.len() {
                    assert(gop_tai(s, c[k], i, j));
                } else {
                    assert(c[k] == t[k - h.len()]);
                    assert(co_gop(s, t[k - h.len()], j));
                    let (a, b) = choose|a: int, b: int| j <= a && #[trigger] gop_tai(s, t[k - h.len()], a, b);
                    assert(gop_tai(s, c[k], a, b));
                }
            }
            assert forall|k: int, l: int| 0 <= k < l < c.len() implies (#[trigger] c[k]).cuoi <= (#[trigger] c[l]).dau by {
                if k >= h.len() {
                    assert(c[k] == t[k - h.len()] && c[l] == t[l - h.len()]);
                } else {
                    assert(c[l] == t[l - h.len()]);
                    assert(co_gop(s, t[l - h.len()], j));
                    let (a, b) = choose|a: int, b: int| j <= a && #[trigger] gop_tai(s, t[l - h.len()], a, b);
                    lemma_vt_byte_tang(s, j, a);
                }
            }
        } else {
            lemma_cum_trang(s, i + 1);
            assert(cum_trang(s, i) == cum_trang(s, i + 1));
            assert forall|k: int| 0 <= k < cum_trang(s, i).len() implies co_gop(s, #[trigger] cum_trang(s, i)[k], i) by {
                assert(cum_trang(s, i + 1)[k] == cum_trang(s, i)[k]);
                assert(co_gop(s, cum_trang(s, i + 1)[k], i + 1));
                let (a, b) = choose|a: int, b: int| i + 1 <= a && #[trigger] gop_tai(s, cum_trang(s, i + 1)[k], a, b);
                assert(gop_tai(s, cum_trang(s, i)[k], a, b));
            }
        }
    }
}

proof fn lemma_loc_roi(ds: Seq<SuaDoiV>, f: spec_fn(SuaDoiV) -> bool)
    requires
        doi_mot_roi_nhau(ds),
    ensures
        doi_mot_roi_nhau(ds.filter(f)),
        forall|k: int| 0 <= k < ds.filter(f).len() ==> f(#[trigger] ds.filter(f)[k]) && ds.contains(ds.filter(f)[k]),
    decreases ds.len(),
{
    reveal(Seq::filter);
    if ds.len() > 0 {
        let d = ds.drop_last();
        let x = ds.last();
        assert forall|i: int, j: int| 0 <= i < d.len() && 0 <= j < d.len() && i != j implies roi_nhau(#[trigger] d[i], #[trigger] d[j]) by {
            assert(d[i] == ds[i] && d[j] == ds[j]);
        }
        lemma_loc_roi(d, f);
        let c = d.filter(f);
        assert forall|k: int| 0 <= k < c.len() implies ds.contains(#[trigger] c[k]) by {
            let q = choose|q: int| 0 <= q < d.len() && d[q] == c[k];
            assert(ds[q] == d[q]);
        }
        if f(x) {
            let e = c.push(x);
            assert forall|k: int| 0 <= k < c.len() implies roi_nhau(#[trigger] c[k], x) by {
                let q = choose|q: int| 0 <= q < d.len() && d[q] == c[k];
                assert(ds[q] == d[q] && ds[ds.len() - 1] == x);
            }
            assert forall|i: int, j: int| 0 <= i < e.len() && 0 <= j < e.len() && i != j implies roi_nhau(#[trigger] e[i], #[trigger] e[j]) by {
                if i == c.len() {
                    assert(roi_nhau(c[j], x));
                } else if j == c.len() {
                    assert(roi_nhau(c[i], x));
                } else {
                    assert(e[i] == c[i] && e[j] == c[j]);
                }
            }
            assert(ds.contains(x));
        }
    }
}

proof fn lemma_them_roi(r: Seq<SuaDoiV>, x: SuaDoiV)
    requires
        doi_mot_roi_nhau(r),
        forall|i: int| 0 <= i < r.len() ==> roi_nhau(#[trigger] r[i], x),
    ensures
        doi_mot_roi_nhau(r.push(x)),
{
    let e = r.push(x);
    assert forall|i: int, j: int| 0 <= i < e.len() && 0 <= j < e.len() && i != j implies roi_nhau(#[trigger] e[i], #[trigger] e[j]) by {
        if i == r.len() {
            assert(roi_nhau(r[j], x));
        } else if j == r.len() {
            assert(roi_nhau(r[i], x));
        } else {
            assert(e[i] == r[i] && e[j] == r[j]);
        }
    }
}

proof fn lemma_gop_tot(s: Seq<char>, x: SuaDoiV, a: int, b: int)
    requires
        gop_tai(s, x, a, b),
    ensures
        nam_gon(s, x),
        chi_bo_trang(s, x),
{
    lemma_vt_ascii(s, a, b);
    lemma_vt_byte_tang(s, a, b);
    lemma_vt_byte_tang(s, b, s.len() as int);
    lemma_ranh_gioi(s, x.dau as int);
    lemma_ranh_gioi(s, x.cuoi as int);
    assert(dai_trang(s, x, a));
}

/// Các phép của tầng khoảng trắng đôi một không chồng nhau, nằm gọn trong văn
/// bản trên ranh giới ký tự, và mỗi phép chỉ thay một dải dấu cách bằng ít dấu
/// cách hơn; vì vậy áp chúng thì phép nào cũng được áp.
pub proof fn lemma_khoang_trang_chi_bo_trang(s: Seq<char>)
    ensures
        doi_mot_roi_nhau(khoang_trang_spec(s)),
        forall|k: int| 0 <= k < khoang_trang_spec(s).len() ==> nam_gon(s, #[trigger] khoang_trang_spec(s)[k]),
        forall|k: int| 0 <= k < khoang_trang_spec(s).len() ==> chi_bo_trang(s, #[trigger] khoang_trang_spec(s)[k]),
        ap_spec(s, sap_xep(khoang_trang_spec(s))).1 == khoang_trang_spec(s).len(),
{
    let nb = vt_byte(s, s.len() as int);
    let d = het_lap(s, 0, ' ');
    let tc = trang_cuoi(s, s.len() as int);
    let c = s.len() - tc;
    let g = cum_trang(s, 0);
    lemma_het_lap(s, 0, ' ');
    lemma_trang_cuoi(s, s.len() as int);
    lemma_cum_trang(s, 0);
    assert(s.take(s.len() as int) =~= s);
    assert(nb == vstd::utf8::encode_utf8(s).len());
    assert(doi_mot_roi_nhau(g)) by {
        assert forall|i: int, j: int| 0 <= i < g.len() && 0 <= j < g.len() && i != j implies roi_nhau(#[trigger] g[i], #[trigger] g[j]) by {
            if i < j {
                assert(g[i].cuoi <= g[j].dau);
            } else {
                assert(g[j].cuoi <= g[i].dau);
            }
        }
    }
    assert forall|k: int| 0 <= k < g.len() implies nam_gon(s, #[trigger] g[k]) && chi_bo_trang(s, g[k]) by {
        assert(co_gop(s, g[k], 0));
        let (a, b) = choose|a: int, b: int| 0 <= a && #[trigger] gop_tai(s, g[k], a, b);
        lemma_gop_tot(s, g[k], a, b);
    }
    assert(s.take(0) =~= Seq::<char>::empty());
    lemma_vt_ascii(s, 0, d);
    let dau = SuaDoiV {
        dau: 0,
        cuoi: d as nat,
        goc: lap(' ', d as nat),
        thay_bang: seq![],
        loai: Loai::KhoangTrang,
        do_chac: DoChac::Chac,
        ly_do: "bỏ khoảng trắng đầu đoạn"@,
    };
    let g1 = if d > 0 { giu_tu(g, d).push(dau) } else { g };
    if d > 0 {
        lemma_loc_roi(g, |x: SuaDoiV| x.dau >= d);
        let gt = giu_tu(g, d);
        assert forall|i: int| 0 <= i < gt.len() implies roi_nhau(#[trigger] gt[i], dau) by {
            assert((|x: SuaDoiV| x.dau >= d)(gt[i]));
        }
        lemma_them_roi(gt, dau);
        lemma_vt_byte_tang(s, d, s.len() as int);
        lemma_ranh_gioi(s, 0);
        lemma_ranh_gioi(s, d);
        assert(nam_gon(s, dau));
        assert(dai_trang(s, dau, 0));
    }
    assert(doi_mot_roi_nhau(g1));
    assert forall|k: int| 0 <= k < g1.len() implies nam_gon(s, #[trigger] g1[k]) && chi_bo_trang(s, g1[k]) by {
        if d > 0 && k < g1.len() - 1 {
            let gt = giu_tu(g, d);
            assert(g1[k] == gt[k]);
            assert(g.contains(gt[k]));
            let q = choose|q: int| 0 <= q < g.len() && g[q] == gt[k];
            assert(nam_gon(s, g[q]) && chi_bo_trang(s, g[q]));
        }
    }
    if c > 0 && c < nb {
        let cuoi = SuaDoiV {
            dau: (nb - c) as nat,
            cuoi: nb,
            goc: lap(' ', c as nat),
            thay_bang: seq![],
            loai: Loai::KhoangTrang,
            do_chac: DoChac::Chac,
            ly_do: "bỏ khoảng trắng cuối đoạn"@,
        };
        lemma_vt_ascii(s, tc, s.len() as int);
        lemma_loc_roi(g1, |x: SuaDoiV| x.cuoi <= nb - c);
        let gd = giu_den(g1, nb - c);
        assert forall|i: int| 0 <= i < gd.len() implies roi_nhau(#[trigger] gd[i], cuoi) by {
            assert((|x: SuaDoiV| x.cuoi <= nb - c)(gd[i]));
        }
        lemma_them_roi(gd, cuoi);
        lemma_vt_byte_tang(s, tc, s.len() as int);
        lemma_ranh_gioi(s, nb - c);
        lemma_ranh_gioi(s, nb as int);
        assert(nam_gon(s, cuoi));
        assert(dai_trang(s, cuoi, tc));
        let r = gd.push(cuoi);
        assert(r == khoang_trang_spec(s));
        assert forall|k: int| 0 <= k < r.len() implies nam_gon(s, #[trigger] r[k]) && chi_bo_trang(s, r[k]) by {
            if k < r.len() - 1 {
                assert(r[k] == gd[k]);
                assert(g1.contains(gd[k]));
                let q = choose|q: int| 0 <= q < g1.len() && g1[q] == gd[k];
                assert(nam_gon(s, g1[q]) && chi_bo_trang(s, g1[q]));
            }
        }
    }
    lemma_ap_du(s, khoang_trang_spec(s));
}

/// Bước 2 — khoảng trắng lặp và khoảng trắng thừa ở hai đầu.
pub fn soat_khoang_trang(van_ban: &str, cd: &CaiDat) -> (r: Vec<SuaDoi>)
    ensures
        dsv(r@) == (if cd.khoang_trang { khoang_trang_spec(van_ban@) } else { seq![] }),
{
    if !cd.khoang_trang {
        let r: Vec<SuaDoi> = Vec::new();
        assert(dsv(r@) =~= Seq::<SuaDoiV>::empty());
        return r;
    }
    let ghost s = van_ban@;
    let v = ky_tu(van_ban);
    let b = bang_vi_tri(van_ban);
    let n = v.len();
    let rong = "";
    let cach = " ";
    proof {
        reveal_strlit("");
        reveal_strlit(" ");
    }
    assert(rong@ =~= Seq::<char>::empty());
    assert(cach@ =~= seq![' ']);
    let mut ra: Vec<SuaDoi> = Vec::new();
    let mut i: usize = 0;
    assert(dsv(ra@) =~= Seq::<SuaDoiV>::empty());
    while i < n
        invariant
            i <= n,
            n == s.len(),
            v@ == s,
            b@.len() == s.len() + 1,
            forall|q: int| 0 <= q <= s.len() ==> #[trigger] b@[q] == vt_byte(s, q),
            cach@ == seq![' '],
            dsv(ra@) + cum_trang(s, i as int) == cum_trang(s, 0),
        decreases n - i,
    {
        if v[i] == ' ' {
            let dau = i;
            proof {
                lemma_het_lap(s, dau as int, ' ');
            }
            while i < n && v[i] == ' '
                invariant
                    dau <= i <= n,
                    n == s.len(),
                    v@ == s,
                    het_lap(s, dau as int, ' ') == het_lap(s, i as int, ' '),
                decreases n - i,
            {
                i += 1;
            }
            let ghost truoc = dsv(ra@);
            if i - dau > 1 {
                let goc = chuoi(&lap_exec(' ', i - dau));
                let ly_do = chuoi(&noi(&noi(&ky_tu("gộp "), &viet_so(i - dau)), &ky_tu(" khoảng trắng")));
                ra.push(SuaDoi::moi(b[dau]..b[i], goc.as_str(), cach, Loai::KhoangTrang, DoChac::Chac, ly_do.as_str()));
                assert(dsv(ra@) =~= truoc + seq![gop_trang(s, dau as int, i as int)]);
                assert(dsv(ra@) + cum_trang(s, i as int) =~= truoc + cum_trang(s, dau as int));
            } else {
                assert(dsv(ra@) + cum_trang(s, i as int) =~= truoc + cum_trang(s, dau as int));
            }
        } else {
            i += 1;
        }
    }
    assert(dsv(ra@) =~= cum_trang(s, 0));
    // Hai đầu đoạn.
    let mut d: usize = 0;
    while d < n && v[d] == ' '
        invariant
            d <= n,
            n == s.len(),
            v@ == s,
            het_lap(s, 0, ' ') == het_lap(s, d as int, ' '),
        decreases n - d,
    {
        d += 1;
    }
    let mut e: usize = n;
    while e > 0 && v[e - 1] == ' '
        invariant
            e <= n,
            n == s.len(),
            v@ == s,
            trang_cuoi(s, n as int) == trang_cuoi(s, e as int),
        decreases e,
    {
        e -= 1;
    }
    proof {
        lemma_het_lap(s, 0, ' ');
        lemma_trang_cuoi(s, n as int);
        lemma_vt_ascii(s, 0, d as int);
        lemma_vt_ascii(s, e as int, n as int);
        assert(s.take(0) =~= Seq::<char>::empty());
        assert(encode_utf8(Seq::<char>::empty()) =~= Seq::<u8>::empty());
    }
    let nb = b[n];
    let c = n - e;
    if d > 0 {
        ra = loc_phep(ra, d, true);
        let goc = chuoi(&lap_exec(' ', d));
        let ghost truoc = dsv(ra@);
        ra.push(SuaDoi::moi(0..d, goc.as_str(), rong, Loai::KhoangTrang, DoChac::Chac, "bỏ khoảng trắng đầu đoạn"));
        assert(dsv(ra@) =~= truoc.push(ra@[truoc.len() as int]@));
    }
    if c > 0 && c < nb {
        ra = loc_phep(ra, nb - c, false);
        let goc = chuoi(&lap_exec(' ', c));
        let ghost truoc = dsv(ra@);
        ra.push(SuaDoi::moi((nb - c)..nb, goc.as_str(), rong, Loai::KhoangTrang, DoChac::Chac, "bỏ khoảng trắng cuối đoạn"));
        assert(dsv(ra@) =~= truoc.push(ra@[truoc.len() as int]@));
    }
    ra
}


/// Dấu câu không được có khoảng trắng đứng trước.
pub open spec fn dau_dong_truoc(c: char) -> bool {
    c == ',' || c == '.' || c == ';' || c == ':' || c == '!' || c == '?' || c == '…' || c == ')' || c == ']'
        || c == '}'
}

/// Dấu mở không được có khoảng trắng đứng sau.
pub open spec fn dau_mo(c: char) -> bool {
    c == '(' || c == '[' || c == '{'
}

fn la_dau_dong_truoc(c: char) -> (r: bool)
    ensures
        r == dau_dong_truoc(c),
{
    c == ',' || c == '.' || c == ';' || c == ':' || c == '!' || c == '?' || c == '…' || c == ')' || c == ']' || c == '}'
}

/// Một phép sửa dấu câu trên đúng một byte ở vị trí `vt`.
pub open spec fn phep_dau(vt: nat, goc: Seq<char>, thay: Seq<char>, dc: DoChac, ly_do: Seq<char>) -> SuaDoiV {
    SuaDoiV { dau: vt, cuoi: vt + 1, goc, thay_bang: thay, loai: Loai::DauCau, do_chac: dc, ly_do }
}

/// 3a — khoảng trắng đứng trước dấu đóng câu, trừ khi dấu ấy mở đầu một cụm
/// ba chấm (` ... `).
pub open spec fn luat_truoc_dau(s: Seq<char>, k: int) -> Seq<SuaDoiV> {
    if s[k] == ' ' && k + 1 < s.len() && dau_dong_truoc(s[k + 1]) && !(s[k + 1] == '.' && k + 2 < s.len()
        && s[k + 2] == '.') {
        seq![
            phep_dau(
                vt_byte(s, k),
                seq![' '],
                seq![],
                DoChac::Chac,
                "bỏ khoảng trắng trước dấu `"@ + seq![s[k + 1]] + "`"@,
            ),
        ]
    } else {
        seq![]
    }
}

/// 3b — khoảng trắng đứng sau dấu mở.
pub open spec fn luat_sau_mo(s: Seq<char>, k: int) -> Seq<SuaDoiV> {
    if s[k] == ' ' && k > 0 && dau_mo(s[k - 1]) {
        seq![
            phep_dau(
                vt_byte(s, k),
                seq![' '],
                seq![],
                DoChac::Chac,
                "bỏ khoảng trắng sau dấu `"@ + seq![s[k - 1]] + "`"@,
            ),
        ]
    } else {
        seq![]
    }
}

/// 3c — thiếu khoảng trắng sau dấu phẩy, chấm phẩy, hai chấm; trừ khi hai bên
/// đều là chữ số (`1,5`, `10:30`) hay ngay sau là một dấu đóng khác.
pub open spec fn luat_sau_phay(s: Seq<char>, k: int) -> Seq<SuaDoiV> {
    let c = s[k];
    if (c == ',' || c == ';' || c == ':') && k > 0 && k + 1 < s.len() && s[k + 1] != ' ' && !(la_ascii_so(s[k - 1])
        && la_ascii_so(s[k + 1])) && !dau_dong_truoc(s[k + 1]) {
        seq![
            phep_dau(
                vt_byte(s, k),
                seq![c],
                seq![c, ' '],
                DoChac::Chac,
                "thêm khoảng trắng sau dấu `"@ + seq![c] + "`"@,
            ),
        ]
    } else {
        seq![]
    }
}

/// 3d — thiếu khoảng trắng sau dấu kết câu: chỉ nhận khi chữ thường đứng trước,
/// chữ hoa đứng sau — hình dạng của hai câu dính nhau.
pub open spec fn luat_sau_cham(s: Seq<char>, k: int) -> Seq<SuaDoiV> {
    let c = s[k];
    if (c == '.' || c == '!' || c == '?') && k > 0 && k + 1 < s.len() && la_thuong(s[k - 1]) && la_hoa(s[k + 1])
        && s[k + 1] != '.' && !(c == '.' && s[k - 1] == '.') {
        seq![
            phep_dau(
                vt_byte(s, k),
                seq![c],
                seq![c, ' '],
                DoChac::KhaChac,
                "thêm khoảng trắng sau dấu `"@ + seq![c] + "` giữa hai câu"@,
            ),
        ]
    } else {
        seq![]
    }
}

/// Các phép sửa dấu câu ở ký tự thứ `k`, theo thứ tự 3a, 3b, 3c, 3d.
pub open spec fn dau_cau_tai(s: Seq<char>, k: int) -> Seq<SuaDoiV> {
    luat_truoc_dau(s, k) + luat_sau_mo(s, k) + luat_sau_phay(s, k) + luat_sau_cham(s, k)
}

/// Các phép sửa dấu câu cho `n` ký tự đầu.
pub open spec fn dau_cau_den(s: Seq<char>, n: int) -> Seq<SuaDoiV>
    decreases n,
{
    if n <= 0 {
        seq![]
    } else {
        dau_cau_den(s, n - 1) + dau_cau_tai(s, n - 1)
    }
}

/// Phép gộp dải dấu chấm `s[a..b]` về ba chấm.
pub open spec fn gop_cham(s: Seq<char>, a: int, b: int) -> SuaDoiV {
    SuaDoiV {
        dau: vt_byte(s, a),
        cuoi: vt_byte(s, b),
        goc: lap('.', (b - a) as nat),
        thay_bang: seq!['.', '.', '.'],
        loai: Loai::DauCau,
        do_chac: DoChac::Chac,
        ly_do: "gộp "@ + so_muoi((b - a) as nat) + " dấu chấm về ba"@,
    }
}

/// Các dải bốn dấu chấm trở lên, từ chỉ số `i` trở đi.
pub open spec fn cum_cham(s: Seq<char>, i: int) -> Seq<SuaDoiV>
    decreases s.len() - i,
{
    if i < 0 || i >= s.len() {
        seq![]
    } else if s[i] == '.' {
        let j = het_lap(s, i, '.');
        proof {
            lemma_het_lap(s, i, '.');
        }
        (if j - i >= 4 { seq![gop_cham(s, i, j)] } else { seq![] }) + cum_cham(s, j)
    } else {
        cum_cham(s, i + 1)
    }
}

/// Các cụm đúng ba dấu chấm (không dính thêm dấu chấm nào hai bên), từ chỉ số
/// `k` trở đi, đổi thành ký tự `…`.
pub open spec fn ba_cham_tu(s: Seq<char>, k: int) -> Seq<SuaDoiV>
    decreases s.len() - k,
{
    if k < 0 || k + 2 >= s.len() {
        seq![]
    } else if s[k] == '.' && s[k + 1] == '.' && s[k + 2] == '.' && (k + 3 >= s.len() || s[k + 3] != '.') && (k
        == 0 || s[k - 1] != '.') {
        seq![
            SuaDoiV {
                dau: vt_byte(s, k),
                cuoi: vt_byte(s, k) + 3,
                goc: seq!['.', '.', '.'],
                thay_bang: seq!['…'],
                loai: Loai::DauCau,
                do_chac: DoChac::Chac,
                ly_do: "dùng ký tự ba chấm"@,
            },
        ] + ba_cham_tu(s, k + 3)
    } else {
        ba_cham_tu(s, k + 1)
    }
}


/// Phép `x` đứng ở ký tự thứ `k` của `s`: nó hoặc bỏ đúng dấu cách ấy, hoặc giữ
/// nguyên dấu câu ấy (`,` `;` `:` `.` `!` `?`) và thêm một dấu cách ngay sau nó;
/// và nó không đụng tới dấu `,` `;` `:` kẹp giữa hai chữ số (`1,5`, `10:30`).
pub open spec fn sua_trang_tai(s: Seq<char>, x: SuaDoiV, k: int) -> bool {
    &&& 0 <= k < s.len()
    &&& x.dau == vt_byte(s, k)
    &&& x.cuoi == vt_byte(s, k + 1)
    &&& ((s[k] == ' ' && x.thay_bang == Seq::<char>::empty()) || ((s[k] == ',' || s[k] == ';' || s[k] == ':' || s[k]
        == '.' || s[k] == '!' || s[k] == '?') && x.thay_bang == seq![s[k], ' ']))
    &&& !((s[k] == ',' || s[k] == ';' || s[k] == ':') && 0 < k && k + 1 < s.len() && la_ascii_so(s[k - 1])
        && la_ascii_so(s[k + 1]))
}

/// Phép `x` chỉ bỏ một dấu cách hay thêm một dấu cách sau một dấu câu của `s`.
pub open spec fn chi_sua_trang_quanh_dau(s: Seq<char>, x: SuaDoiV) -> bool {
    exists|k: int| #[trigger] sua_trang_tai(s, x, k)
}

proof fn lemma_dau_cau_den_trang(s: Seq<char>, n: int)
    requires
        0 <= n <= s.len(),
    ensures
        forall|i: int| 0 <= i < dau_cau_den(s, n).len() ==> chi_sua_trang_quanh_dau(s, #[trigger] dau_cau_den(s, n)[i]),
    decreases n,
{
    if n > 0 {
        let k = n - 1;
        lemma_dau_cau_den_trang(s, k);
        let t = dau_cau_tai(s, k);
        let d = dau_cau_den(s, k);
        assert(dau_cau_den(s, n) == d + t);
        if (s[k] as u32) < 0x80 {
            lemma_vt_ascii(s, k, k + 1);
        }
        assert forall|i: int| 0 <= i < t.len() implies chi_sua_trang_quanh_dau(s, #[trigger] t[i]) by {
            assert(sua_trang_tai(s, t[i], k));
        }
        assert forall|i: int| 0 <= i < dau_cau_den(s, n).len() implies chi_sua_trang_quanh_dau(s, #[trigger] dau_cau_den(s, n)[i]) by {
            if i < d.len() {
                assert(dau_cau_den(s, n)[i] == d[i]);
            } else {
                assert(dau_cau_den(s, n)[i] == t[i - d.len()]);
            }
        }
    }
}

/// Bốn luật dấu câu (khoảng trắng trước dấu đóng, sau dấu mở, sau dấu phẩy và
/// sau dấu kết câu) chỉ bỏ một dấu cách hoặc thêm một dấu cách ngay sau một dấu
/// câu; không phép nào đụng tới chữ cái hay chữ số, hay tới dấu `,` `;` `:` nằm
/// giữa hai chữ số.
pub proof fn lemma_dau_cau_chi_sua_trang(s: Seq<char>)
    ensures
        forall|i: int|
            0 <= i < dau_cau_den(s, s.len() as int).len() ==> chi_sua_trang_quanh_dau(
                s,
                #[trigger] dau_cau_den(s, s.len() as int)[i],
            ),
{
    lemma_dau_cau_den_trang(s, s.len() as int);
}


/// `x` bỏ đúng dấu cách ở ký tự thứ `k` của `s`.
pub open spec fn bo_cach_tai(s: Seq<char>, x: SuaDoiV, k: int) -> bool {
    &&& x.dau == vt_byte(s, k)
    &&& x.cuoi == vt_byte(s, k) + 1
    &&& x.goc == seq![' ']
    &&& x.thay_bang.len() == 0
}

proof fn lemma_dau_cau_den_chua(s: Seq<char>, n: int, k: int, x: SuaDoiV)
    requires
        0 <= k < n,
        dau_cau_tai(s, k).contains(x),
    ensures
        dau_cau_den(s, n).contains(x),
    decreases n,
{
    let j = choose|j: int| 0 <= j < dau_cau_tai(s, k).len() && dau_cau_tai(s, k)[j] == x;
    if k == n - 1 {
        let a = dau_cau_den(s, n - 1);
        assert(dau_cau_den(s, n)[a.len() + j] == x);
    } else {
        lemma_dau_cau_den_chua(s, n - 1, k, x);
        let a = dau_cau_den(s, n - 1);
        let q = choose|q: int| 0 <= q < a.len() && a[q] == x;
        assert(dau_cau_den(s, n)[q] == x);
    }
}

/// Khoảng trắng đứng ngay trước một dấu đóng câu — `,` `.` `;` `:` `!` `?` `…`
/// `)` `]` `}` — luôn bị bỏ, trừ khi dấu ấy là dấu chấm mở đầu một cụm `..`:
/// với mọi văn bản và mọi vị trí như thế, tầng dấu câu có một phép bỏ đúng dấu
/// cách ấy (`Anh đi đâu ?` → `Anh đi đâu?`).
pub proof fn lemma_bo_cach_truoc_dau_dong(s: Seq<char>, cd: CaiDat, k: int)
    requires
        0 <= k,
        k + 1 < s.len(),
        s[k] == ' ',
        s[k + 1] == ',' || s[k + 1] == '.' || s[k + 1] == ';' || s[k + 1] == ':' || s[k + 1] == '!' || s[k + 1] == '?'
            || s[k + 1] == '…' || s[k + 1] == ')' || s[k + 1] == ']' || s[k + 1] == '}',
        !(s[k + 1] == '.' && k + 2 < s.len() && s[k + 2] == '.'),
    ensures
        exists|j: int| 0 <= j < dau_cau_spec(s, cd).len() && #[trigger] bo_cach_tai(s, dau_cau_spec(s, cd)[j], k),
{
    let x = luat_truoc_dau(s, k)[0];
    assert(luat_truoc_dau(s, k).len() == 1);
    assert(dau_cau_tai(s, k)[0] == x);
    lemma_dau_cau_den_chua(s, s.len() as int, k, x);
    let q = choose|q: int| 0 <= q < dau_cau_den(s, s.len() as int).len() && dau_cau_den(s, s.len() as int)[q] == x;
    assert(dau_cau_spec(s, cd)[q] == x);
    assert(bo_cach_tai(s, dau_cau_spec(s, cd)[q], k));
}

/// Bước 3 dưới dạng toán học.
pub open spec fn dau_cau_spec(s: Seq<char>, cd: CaiDat) -> Seq<SuaDoiV> {
    dau_cau_den(s, s.len() as int) + (if cd.gom_dau_cham { cum_cham(s, 0) } else { seq![] }) + (
    if cd.dung_ky_tu_ba_cham {
        ba_cham_tu(s, 0)
    } else {
        seq![]
    })
}

fn bao_quanh(dau: &str, x: char, cuoi: &str) -> (r: String)
    ensures
        r@ == dau@ + seq![x] + cuoi@,
{
    let mot = vec![x];
    assert(mot@ =~= seq![x]);
    chuoi(&noi(&noi(&ky_tu(dau), &mot), &ky_tu(cuoi)))
}

fn phep_dau_exec(vt: usize, goc: &[char], thay: &[char], dc: DoChac, ly_do: &str) -> (r: SuaDoi)
    requires
        vt + 1 <= usize::MAX,
    ensures
        r@ == phep_dau(vt as nat, goc@, thay@, dc, ly_do@),
{
    let g = chuoi(goc);
    let t = chuoi(thay);
    SuaDoi::moi(vt..vt + 1, g.as_str(), t.as_str(), Loai::DauCau, dc, ly_do)
}

fn dau_cau_tai_exec(v: &Vec<char>, b: &Vec<usize>, k: usize) -> (r: Vec<SuaDoi>)
    requires
        k < v.len(),
        b@.len() == v@.len() + 1,
        forall|q: int| 0 <= q <= v@.len() ==> #[trigger] b@[q] == vt_byte(v@, q),
    ensures
        dsv(r@) == dau_cau_tai(v@, k as int),
{
    let ghost s = v@;
    proof {
        lemma_vt_byte_buoc(s, k as int);
        crate::chuoi::lemma_do_dai_byte(s[k as int]);
    }
    assert(b@[k as int + 1] == vt_byte(s, k as int + 1));
    let vt = b[k];
    let n = v.len();
    let c = v[k];
    let mut ra: Vec<SuaDoi> = Vec::new();
    let cach = vec![' '];
    let rong: Vec<char> = Vec::new();
    let mot = vec![c];
    let hai = vec![c, ' '];
    assert(cach@ =~= seq![' ']);
    assert(rong@ =~= Seq::<char>::empty());
    assert(mot@ =~= seq![c]);
    assert(hai@ =~= seq![c, ' ']);
    // 3a
    if c == ' ' && k + 1 < n && la_dau_dong_truoc(v[k + 1]) && !(v[k + 1] == '.' && k + 2 < n && v[k + 2] == '.') {
        let ly_do = bao_quanh("bỏ khoảng trắng trước dấu `", v[k + 1], "`");
        ra.push(phep_dau_exec(vt, &cach, &rong, DoChac::Chac, ly_do.as_str()));
    }
    assert(dsv(ra@) =~= luat_truoc_dau(s, k as int));
    let ghost m1 = dsv(ra@);
    // 3b
    if c == ' ' && k > 0 && (v[k - 1] == '(' || v[k - 1] == '[' || v[k - 1] == '{') {
        let ly_do = bao_quanh("bỏ khoảng trắng sau dấu `", v[k - 1], "`");
        ra.push(phep_dau_exec(vt, &cach, &rong, DoChac::Chac, ly_do.as_str()));
    }
    assert(dsv(ra@) =~= m1 + luat_sau_mo(s, k as int));
    let ghost m2 = dsv(ra@);
    // 3c
    if (c == ',' || c == ';' || c == ':') && k > 0 && k + 1 < n && v[k + 1] != ' ' && !(crate::chuoi::ascii_so(
        v[k - 1],
    ) && crate::chuoi::ascii_so(v[k + 1])) && !la_dau_dong_truoc(v[k + 1]) {
        let ly_do = bao_quanh("thêm khoảng trắng sau dấu `", c, "`");
        ra.push(phep_dau_exec(vt, &mot, &hai, DoChac::Chac, ly_do.as_str()));
    }
    assert(dsv(ra@) =~= m2 + luat_sau_phay(s, k as int));
    let ghost m3 = dsv(ra@);
    // 3d
    if (c == '.' || c == '!' || c == '?') && k > 0 && k + 1 < n && thuong(v[k - 1]) && hoa(v[k + 1]) && v[k + 1]
        != '.' && !(c == '.' && v[k - 1] == '.') {
        let ly_do = bao_quanh("thêm khoảng trắng sau dấu `", c, "` giữa hai câu");
        ra.push(phep_dau_exec(vt, &mot, &hai, DoChac::KhaChac, ly_do.as_str()));
    }
    assert(dsv(ra@) =~= m3 + luat_sau_cham(s, k as int));
    ra
}

fn noi_phep(ra: &mut Vec<SuaDoi>, them: Vec<SuaDoi>)
    ensures
        dsv(final(ra)@) == dsv(old(ra)@) + dsv(them@),
{
    let mut them = them;
    let ghost a = dsv(ra@);
    let ghost t = dsv(them@);
    ra.append(&mut them);
    assert(dsv(ra@) =~= a + t);
}

/// Bốn dấu chấm trở lên gộp về ba. Hai dấu để nguyên: người ta có khi gõ `..`
/// cố ý.
fn gom_dau_cham(v: &Vec<char>, b: &Vec<usize>) -> (r: Vec<SuaDoi>)
    requires
        b@.len() == v@.len() + 1,
        forall|q: int| 0 <= q <= v@.len() ==> #[trigger] b@[q] == vt_byte(v@, q),
    ensures
        dsv(r@) == cum_cham(v@, 0),
{
    let ghost s = v@;
    let n = v.len();
    let mut ra: Vec<SuaDoi> = Vec::new();
    let mut i: usize = 0;
    let ba = "...";
    proof {
        reveal_strlit("...");
    }
    assert(ba@ =~= seq!['.', '.', '.']);
    assert(dsv(ra@) =~= Seq::<SuaDoiV>::empty());
    while i < n
        invariant
            i <= n,
            n == s.len(),
            v@ == s,
            b@.len() == s.len() + 1,
            forall|q: int| 0 <= q <= s.len() ==> #[trigger] b@[q] == vt_byte(s, q),
            ba@ == seq!['.', '.', '.'],
            dsv(ra@) + cum_cham(s, i as int) == cum_cham(s, 0),
        decreases n - i,
    {
        if v[i] == '.' {
            let dau = i;
            proof {
                lemma_het_lap(s, dau as int, '.');
            }
            while i < n && v[i] == '.'
                invariant
                    dau <= i <= n,
                    n == s.len(),
                    v@ == s,
                    het_lap(s, dau as int, '.') == het_lap(s, i as int, '.'),
                decreases n - i,
            {
                i += 1;
            }
            let ghost truoc = dsv(ra@);
            if i - dau >= 4 {
                let goc = chuoi(&lap_exec('.', i - dau));
                let ly_do = chuoi(&noi(&noi(&ky_tu("gộp "), &viet_so(i - dau)), &ky_tu(" dấu chấm về ba")));
                ra.push(SuaDoi::moi(b[dau]..b[i], goc.as_str(), ba, Loai::DauCau, DoChac::Chac, ly_do.as_str()));
                assert(dsv(ra@) =~= truoc + seq![gop_cham(s, dau as int, i as int)]);
                assert(dsv(ra@) + cum_cham(s, i as int) =~= truoc + cum_cham(s, dau as int));
            } else {
                assert(dsv(ra@) + cum_cham(s, i as int) =~= truoc + cum_cham(s, dau as int));
            }
        } else {
            i += 1;
        }
    }
    assert(dsv(ra@) =~= cum_cham(s, 0));
    ra
}

/// Đổi cụm đúng ba dấu chấm thành một ký tự `…`.
fn doi_ba_cham(v: &Vec<char>, b: &Vec<usize>) -> (r: Vec<SuaDoi>)
    requires
        b@.len() == v@.len() + 1,
        forall|q: int| 0 <= q <= v@.len() ==> #[trigger] b@[q] == vt_byte(v@, q),
    ensures
        dsv(r@) == ba_cham_tu(v@, 0),
{
    let ghost s = v@;
    let n = v.len();
    let mut ra: Vec<SuaDoi> = Vec::new();
    let mut k: usize = 0;
    let ba = "...";
    let mot = "…";
    proof {
        reveal_strlit("...");
        reveal_strlit("…");
    }
    assert(ba@ =~= seq!['.', '.', '.']);
    assert(mot@ =~= seq!['…']);
    assert(dsv(ra@) =~= Seq::<SuaDoiV>::empty());
    while k < n && n - k > 2
        invariant
            k <= n,
            n == s.len(),
            v@ == s,
            b@.len() == s.len() + 1,
            forall|q: int| 0 <= q <= s.len() ==> #[trigger] b@[q] == vt_byte(s, q),
            ba@ == seq!['.', '.', '.'],
            mot@ == seq!['…'],
            dsv(ra@) + ba_cham_tu(s, k as int) == ba_cham_tu(s, 0),
        decreases n - k,
    {
        if v[k] == '.' && v[k + 1] == '.' && v[k + 2] == '.' && (k + 3 >= n || v[k + 3] != '.') && (k == 0 || v[k
            - 1] != '.') {
            proof {
                lemma_vt_ascii(s, k as int, k + 3);
            }
            assert(b@[k + 3] == vt_byte(s, k + 3));
            let ghost truoc = dsv(ra@);
            ra.push(SuaDoi::moi(b[k]..b[k] + 3, ba, mot, Loai::DauCau, DoChac::Chac, "dùng ký tự ba chấm"));
            assert(dsv(ra@) + ba_cham_tu(s, k + 3) =~= truoc + ba_cham_tu(s, k as int));
            k += 3;
        } else {
            k += 1;
        }
    }
    ra
}

/// Bước 3 — dấu câu: khoảng trắng trước dấu đóng, sau dấu mở, thiếu khoảng
/// trắng sau dấu phẩy và giữa hai câu dính nhau; rồi (tuỳ cài đặt) gộp dấu
/// chấm và đổi ba chấm.
pub fn soat_dau_cau(van_ban: &str, cd: &CaiDat) -> (r: Vec<SuaDoi>)
    ensures
        dsv(r@) == (if cd.dau_cau { dau_cau_spec(van_ban@, *cd) } else { seq![] }),
{
    if !cd.dau_cau {
        let r: Vec<SuaDoi> = Vec::new();
        assert(dsv(r@) =~= Seq::<SuaDoiV>::empty());
        return r;
    }
    let ghost s = van_ban@;
    let v = ky_tu(van_ban);
    let b = bang_vi_tri(van_ban);
    let mut ra: Vec<SuaDoi> = Vec::new();
    let mut k: usize = 0;
    assert(dsv(ra@) =~= Seq::<SuaDoiV>::empty());
    while k < v.len()
        invariant
            k <= v.len(),
            v@ == s,
            b@.len() == s.len() + 1,
            forall|q: int| 0 <= q <= s.len() ==> #[trigger] b@[q] == vt_byte(s, q),
            dsv(ra@) == dau_cau_den(s, k as int),
        decreases v.len() - k,
    {
        let them = dau_cau_tai_exec(&v, &b, k);
        noi_phep(&mut ra, them);
        k += 1;
    }
    let ghost phan1 = dsv(ra@);
    if cd.gom_dau_cham {
        noi_phep(&mut ra, gom_dau_cham(&v, &b));
    }
    let ghost phan2 = dsv(ra@);
    assert(phan2 == phan1 + (if cd.gom_dau_cham { cum_cham(s, 0) } else { seq![] }));
    if cd.dung_ky_tu_ba_cham {
        noi_phep(&mut ra, doi_ba_cham(&v, &b));
    }
    assert(dsv(ra@) =~= phan2 + (if cd.dung_ky_tu_ba_cham { ba_cham_tu(s, 0) } else { seq![] }));
    ra
}

} // verus!
