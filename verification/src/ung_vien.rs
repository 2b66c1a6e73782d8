//! Từ một tiếng sai, sinh ra các cách sửa có lý — và **chỉ** những cách có lý.
//!
//! Sinh **theo cách người ta gõ sai**, rồi lọc bằng chính bộ kiểm cấu tạo âm
//! tiết, nên mọi ứng viên trả về đều là tiếng Việt viết đúng cấu tạo.
//!
//! | Kiểu | Ví dụ | Sinh bằng |
//! |---|---|---|
//! | Rơi hoặc lạc dấu phụ | `thuơng` → `thương` | đổi `o/ô/ơ`, `u/ư`, `a/ă/â`, `e/ê`, `d/đ` |
//! | Rơi hoặc sai dấu thanh | `hoi` → `hỏi` | thử cả sáu thanh |
//! | Thừa/thiếu/đảo một chữ | `khôgn` → `không` | xoá, đảo, chèn, thay một chữ |
//! | Bấm hai lần một phím | `khôngg` → `không` | bỏ một ký tự lặp |
//!
//! Bảng giá, rẻ tới đắt: bỏ một ký tự lặp (1) < **thêm** dấu phụ vào chữ trơn
//! (2) < **đụng vào** chữ đã mang dấu phụ (3) < đảo hai chữ liền nhau (4) <
//! xoá/chèn/thay một chữ (6) < thay nguyên âm (8). Cộng 3 nếu đổi thanh, cộng 1
//! nếu số chữ đổi.
use vstd::prelude::*;
use vstd::relations::{sorted_by, total_ordering};
use crate::am_tiet::bo_thanh;
use crate::am_tiet::bo_thanh_spec;
use crate::am_tiet::la_nguyen_am_spec;
use crate::am_tiet::{
    bo_thanh_chuoi_spec, bo_thanh_ds, ghep_ds, ghep_spec, tach_ds, tach_khung_ds, tach_khung_spec, tach_spec,
    thanh_hop_le_spec, van_khep_ds, van_khep_spec, AmTietV, NANG, NGANG, SAC,
};
use crate::hoa_thuong::{chuoi_thuong, hoa, hoa_ky_tu, ky_tu_hoa, la_hoa, thuong_cua};
use crate::chuoi::ky_tu;
use crate::hoa_thuong::{ky_tu_thuong, thuong_ky_tu};

verus! {

/// Giá của một vị trí **thêm** dấu phụ vào chữ trơn (`o` → `ô`, `d` → `đ`).
const GIA_THEM_DAU_PHU: u32 = 2;

/// Giá của một vị trí **đụng vào chữ đã mang dấu phụ**, theo hướng nào cũng vậy.
const GIA_DUNG_DAU_PHU: u32 = 3;

/// Giá của phép bỏ một ký tự lặp; phép này đổi số chữ nên còn được cộng 1.
const GIA_BO_LAP: u32 = 0;

/// Các nguyên âm cùng chữ cái nền mà người gõ hay lẫn. `đ` chỉ đi một chiều:
/// `d` có thể thành `đ`, còn `đ` không bao giờ thành `d`.
pub open spec fn cung_nen_spec(c: char) -> Seq<char> {
    if c == 'a' || c == 'ă' || c == 'â' {
        seq!['a', 'ă', 'â']
    } else if c == 'e' || c == 'ê' {
        seq!['e', 'ê']
    } else if c == 'o' || c == 'ô' || c == 'ơ' {
        seq!['o', 'ô', 'ơ']
    } else if c == 'u' || c == 'ư' {
        seq!['u', 'ư']
    } else if c == 'd' {
        seq!['d', 'đ']
    } else if c == 'đ' {
        seq!['đ']
    } else {
        seq![]
    }
}

/// Chữ cái nền của một chữ cái riêng tiếng Việt: `ă â` → `a`, `ê` → `e`,
/// `ô ơ` → `o`, `ư` → `u`, `đ` → `d`.
pub open spec fn nen_cua_spec(c: char) -> Option<char> {
    if c == 'ă' || c == 'â' {
        Some('a')
    } else if c == 'ê' {
        Some('e')
    } else if c == 'ô' || c == 'ơ' {
        Some('o')
    } else if c == 'ư' {
        Some('u')
    } else if c == 'đ' {
        Some('d')
    } else {
        None
    }
}

fn cung_nen(c: char) -> (r: Vec<char>)
    ensures
        r@ == cung_nen_spec(c),
{
    if c == 'a' || c == 'ă' || c == 'â' {
        vec!['a', 'ă', 'â']
    } else if c == 'e' || c == 'ê' {
        vec!['e', 'ê']
    } else if c == 'o' || c == 'ô' || c == 'ơ' {
        vec!['o', 'ô', 'ơ']
    } else if c == 'u' || c == 'ư' {
        vec!['u', 'ư']
    } else if c == 'd' {
        vec!['d', 'đ']
    } else if c == 'đ' {
        vec!['đ']
    } else {
        Vec::new()
    }
}

fn nen_cua(c: char) -> (r: Option<char>)
    ensures
        r == nen_cua_spec(c),
{
    if c == 'ă' || c == 'â' {
        Some('a')
    } else if c == 'ê' {
        Some('e')
    } else if c == 'ô' || c == 'ơ' {
        Some('o')
    } else if c == 'ư' {
        Some('u')
    } else if c == 'đ' {
        Some('d')
    } else {
        None
    }
}

/// Ký tự đầu tiên mà `char::to_lowercase` cho ra, hoặc chính nó.
pub open spec fn chu_thuong_dau(c: char) -> char {
    if thuong_ky_tu(c).len() > 0 {
        thuong_ky_tu(c)[0]
    } else {
        c
    }
}

/// Chữ cái của một ký tự, bỏ qua hoa thường, dấu thanh và dấu phụ nguyên âm —
/// nhưng **giữ `đ` riêng**: `đ` và `d` là hai phụ âm khác nhau.
pub open spec fn nen_chu(c: char) -> char {
    let k = bo_thanh_spec(chu_thuong_dau(c)).0;
    if k == 'đ' {
        'đ'
    } else {
        match nen_cua_spec(k) {
            Some(x) => x,
            None => k,
        }
    }
}

fn nen_chu_exec(c: char) -> (r: char)
    ensures
        r == nen_chu(c),
{
    let t = ky_tu_thuong(c);
    let thap = if t.len() > 0 { t[0] } else { c };
    let (k, _) = bo_thanh(thap);
    if k == 'đ' {
        'đ'
    } else {
        match nen_cua(k) {
            Some(x) => x,
            None => k,
        }
    }
}

/// Hai ký tự có phải **cùng một chữ cái, chỉ khác dấu phụ hoặc dấu thanh**
/// không. `u`/`ư`, `o`/`ô`/`ơ`, `a`/`ă`/`â`, `e`/`ê` và mọi dấu thanh trên
/// chúng là một chữ cái; `đ` và `d` thì không.
pub fn cung_chu_cai(a: char, b: char) -> (r: bool)
    ensures
        r == (nen_chu(a) == nen_chu(b)),
{
    nen_chu_exec(a) == nen_chu_exec(b)
}

/// Ứng viên **chỉ thêm đúng một dấu phụ**, nhận ra bằng giá: chỉ một đường sinh
/// ra giá ấy.
pub fn chi_them_mot_dau_phu(gia: u32) -> (r: bool)
    ensures
        r == (gia == 2),
{
    gia == GIA_THEM_DAU_PHU
}

/// Giá đổi dấu phụ tại một vị trí, theo chiều.
pub open spec fn gia_vi_tri(a: char, b: char) -> nat {
    if a == b {
        0
    } else if nen_cua_spec(a).is_some() {
        3
    } else {
        2
    }
}

/// Tổng giá đổi dấu phụ trên `n` vị trí đầu.
pub open spec fn gia_doi_den(goc: Seq<char>, moi: Seq<char>, n: int) -> nat
    decreases n,
{
    if n <= 0 {
        0
    } else {
        gia_doi_den(goc, moi, n - 1) + gia_vi_tri(goc[n - 1], moi[n - 1])
    }
}

/// Giá của phép đổi dấu phụ từ `goc` sang `moi`, cộng theo từng cặp ký tự.
pub open spec fn gia_doi_spec(goc: Seq<char>, moi: Seq<char>) -> nat {
    let n = if goc.len() < moi.len() { goc.len() } else { moi.len() };
    gia_doi_den(goc, moi, n as int)
}

proof fn lemma_gia_doi_tang(goc: Seq<char>, moi: Seq<char>, i: int, n: int)
    requires
        i <= n,
    ensures
        gia_doi_den(goc, moi, i) <= gia_doi_den(goc, moi, n),
    decreases n - i,
{
    if i < n {
        lemma_gia_doi_tang(goc, moi, i, n - 1);
    }
}

fn gia_doi_dau_phu(goc: &[char], moi: &[char]) -> (r: u32)
    requires
        gia_doi_spec(goc@, moi@) <= u32::MAX,
    ensures
        r == gia_doi_spec(goc@, moi@),
{
    let n = if goc.len() < moi.len() { goc.len() } else { moi.len() };
    let mut tong: u32 = 0;
    let mut i: usize = 0;
    while i < n
        invariant
            i <= n,
            n == (if goc.len() < moi.len() { goc.len() } else { moi.len() }),
            gia_doi_spec(goc@, moi@) <= u32::MAX,
            tong == gia_doi_den(goc@, moi@, i as int),
        decreases n - i,
    {
        proof {
            lemma_gia_doi_tang(goc@, moi@, i + 1, n as int);
        }
        let a = goc[i];
        let b = moi[i];
        let g = if a == b {
            0
        } else if nen_cua(a).is_some() {
            GIA_DUNG_DAU_PHU
        } else {
            GIA_THEM_DAU_PHU
        };
        tong = tong + g;
        i += 1;
    }
    tong
}

/// Dãy các dãy ký tự, nhìn như dãy toán học.
pub open spec fn dv(v: Seq<Vec<char>>) -> Seq<Seq<char>> {
    v.map_values(|x: Vec<char>| x@)
}

/// Vị trí `i` là một cặp lặp bỏ được: hai ký tự giống hệt, không phải `oo`,
/// không phải chữ mang dấu phụ, và bỏ xong còn ít nhất hai chữ.
pub open spec fn bo_lap_duoc(k: Seq<char>, i: int) -> bool {
    &&& k[i] == k[i + 1]
    &&& k[i] != 'o'
    &&& nen_cua_spec(k[i]).is_none()
    &&& k.len() >= 3
}

/// Các cách bỏ một ký tự lặp, xét các vị trí `0..n`.
pub open spec fn bo_lap_den(k: Seq<char>, n: int) -> Seq<Seq<char>>
    decreases n,
{
    if n <= 0 {
        seq![]
    } else if bo_lap_duoc(k, n - 1) {
        bo_lap_den(k, n - 1).push(k.remove(n - 1))
    } else {
        bo_lap_den(k, n - 1)
    }
}

/// Mọi cách bỏ **một** ký tự trong một cặp ký tự lặp.
pub open spec fn bo_ky_tu_lap_spec(k: Seq<char>) -> Seq<Seq<char>> {
    if k.len() < 1 {
        seq![]
    } else {
        bo_lap_den(k, k.len() - 1)
    }
}

fn bo_ky_tu_lap_ds(k: &[char]) -> (r: Vec<Vec<char>>)
    ensures
        dv(r@) == bo_ky_tu_lap_spec(k@),
{
    let mut ra: Vec<Vec<char>> = Vec::new();
    if k.len() < 1 {
        return ra;
    }
    let n = k.len() - 1;
    let mut i: usize = 0;
    while i < n
        invariant
            i <= n,
            n + 1 == k.len(),
            dv(ra@) == bo_lap_den(k@, i as int),
        decreases n - i,
    {
        if k[i] == k[i + 1] && k[i] != 'o' && nen_cua(k[i]).is_none() && k.len() >= 3 {
            let mut m = crate::chuoi::cat_doan(k, 0, k.len());
            m.remove(i);
            assert(m@ == k@.remove(i as int));
            ra.push(m);
            assert(dv(ra@) =~= bo_lap_den(k@, i as int).push(k@.remove(i as int)));
        }
        i += 1;
    }
    ra
}


/// Số vị trí trong `k[..n]` có nhóm dấu phụ để đổi.
pub open spec fn so_vi_tri(k: Seq<char>, n: int) -> nat
    decreases n,
{
    if n <= 0 {
        0
    } else {
        so_vi_tri(k, n - 1) + if cung_nen_spec(k[n - 1]).len() > 0 { 1nat } else { 0nat }
    }
}

/// Thay ký tự `i` của từng dãy trong `ra` bằng từng chữ của `nhom`, giữ thứ tự.
pub open spec fn mo_rong(ra: Seq<Seq<char>>, i: int, nhom: Seq<char>) -> Seq<Seq<char>>
    decreases ra.len(),
{
    if ra.len() == 0 {
        seq![]
    } else {
        mo_rong(ra.drop_last(), i, nhom) + nhom.map_values(|t: char| ra.last().update(i, t))
    }
}

/// Mọi tổ hợp đổi dấu phụ ở các vị trí `0..n`.
pub open spec fn to_hop(k: Seq<char>, n: int) -> Seq<Seq<char>>
    decreases n,
{
    if n <= 0 {
        seq![k]
    } else if cung_nen_spec(k[n - 1]).len() == 0 {
        to_hop(k, n - 1)
    } else {
        mo_rong(to_hop(k, n - 1), n - 1, cung_nen_spec(k[n - 1]))
    }
}

/// Mọi tổ hợp đổi dấu phụ của một khung chữ; quá ba vị trí đổi được thì chỉ trả
/// lại chính khung ấy.
pub open spec fn doi_dau_phu_spec(k: Seq<char>) -> Seq<Seq<char>> {
    if so_vi_tri(k, k.len() as int) > 3 {
        seq![k]
    } else {
        to_hop(k, k.len() as int)
    }
}

/// `m` chỉ khác `k` ở những vị trí có nhóm dấu phụ.
pub open spec fn chi_doi_trong_nhom(k: Seq<char>, m: Seq<char>) -> bool {
    &&& m.len() == k.len()
    &&& forall|p: int| 0 <= p < k.len() && m[p] != k[p] ==> cung_nen_spec(k[p]).len() > 0
}

proof fn lemma_gia_doi_chan(k: Seq<char>, m: Seq<char>, n: int)
    requires
        0 <= n <= k.len(),
        chi_doi_trong_nhom(k, m),
    ensures
        gia_doi_den(k, m, n) <= 3 * so_vi_tri(k, n),
    decreases n,
{
    if n > 0 {
        lemma_gia_doi_chan(k, m, n - 1);
        assert(m[n - 1] != k[n - 1] ==> cung_nen_spec(k[n - 1]).len() > 0);
    }
}

proof fn lemma_gia_doi_bang(k: Seq<char>, n: int)
    ensures
        gia_doi_den(k, k, n) == 0,
    decreases n,
{
    if n > 0 {
        lemma_gia_doi_bang(k, n - 1);
    }
}

fn chep(k: &[char]) -> (r: Vec<char>)
    ensures
        r@ == k@,
{
    let r = crate::chuoi::cat_doan(k, 0, k.len());
    assert(k@.subrange(0, k.len() as int) =~= k@);
    r
}

fn doi_dau_phu(k: &[char]) -> (r: Vec<Vec<char>>)
    ensures
        dv(r@) == doi_dau_phu_spec(k@),
        forall|j: int| 0 <= j < r@.len() ==> chi_doi_trong_nhom(k@, #[trigger] r@[j]@),
        forall|j: int| 0 <= j < r@.len() ==> gia_doi_spec(k@, #[trigger] r@[j]@) <= 9,
{
    let mut so: usize = 0;
    let mut i: usize = 0;
    while i < k.len()
        invariant
            i <= k.len(),
            so <= i,
            so == so_vi_tri(k@, i as int),
        decreases k.len() - i,
    {
        if cung_nen(k[i]).len() > 0 {
            so = so + 1;
        }
        i += 1;
    }
    if so > 3 {
        let mut ra: Vec<Vec<char>> = Vec::new();
        ra.push(chep(k));
        assert(dv(ra@) =~= seq![k@]);
        proof {
            lemma_gia_doi_bang(k@, k@.len() as int);
        }
        return ra;
    }
    let mut ra: Vec<Vec<char>> = Vec::new();
    ra.push(chep(k));
    assert(dv(ra@) =~= seq![k@]);
    let mut i: usize = 0;
    while i < k.len()
        invariant
            i <= k.len(),
            dv(ra@) == to_hop(k@, i as int),
            forall|j: int| 0 <= j < ra@.len() ==> chi_doi_trong_nhom(k@, #[trigger] ra@[j]@),
        decreases k.len() - i,
    {
        let nhom = cung_nen(k[i]);
        if nhom.len() > 0 {
            let mut tiep: Vec<Vec<char>> = Vec::new();
            let mut j: usize = 0;
            while j < ra.len()
                invariant
                    i < k.len(),
                    j <= ra.len(),
                    nhom@ == cung_nen_spec(k@[i as int]),
                    nhom@.len() > 0,
                    forall|q: int| 0 <= q < ra@.len() ==> chi_doi_trong_nhom(k@, #[trigger] ra@[q]@),
                    forall|q: int| 0 <= q < tiep@.len() ==> chi_doi_trong_nhom(k@, #[trigger] tiep@[q]@),
                    dv(tiep@) == mo_rong(dv(ra@).take(j as int), i as int, nhom@),
                decreases ra.len() - j,
            {
                let ghost truoc = dv(tiep@);
                let mut t: usize = 0;
                while t < nhom.len()
                    invariant
                        i < k.len(),
                        j < ra.len(),
                        t <= nhom.len(),
                        nhom@ == cung_nen_spec(k@[i as int]),
                        chi_doi_trong_nhom(k@, ra@[j as int]@),
                        forall|q: int| 0 <= q < tiep@.len() ==> chi_doi_trong_nhom(k@, #[trigger] tiep@[q]@),
                        dv(tiep@) == truoc + nhom@.take(t as int).map_values(
                            |x: char| ra@[j as int]@.update(i as int, x),
                        ),
                    decreases nhom.len() - t,
                {
                    let mut m = chep(&ra[j]);
                    m.set(i, nhom[t]);
                    let ghost cu = dv(tiep@);
                    let ghost f = |x: char| ra@[j as int]@.update(i as int, x);
                    assert(m@ == f(nhom@[t as int]));
                    tiep.push(m);
                    assert(dv(tiep@) =~= cu.push(f(nhom@[t as int])));
                    assert(nhom@.take(t + 1) =~= nhom@.take(t as int).push(nhom@[t as int]));
                    assert(nhom@.take(t + 1).map_values(f) =~= nhom@.take(t as int).map_values(f).push(
                        f(nhom@[t as int]),
                    ));
                    assert(dv(tiep@) =~= truoc + nhom@.take(t + 1).map_values(
                        |x: char| ra@[j as int]@.update(i as int, x),
                    ));
                    t += 1;
                }
                assert(nhom@.take(nhom@.len() as int) =~= nhom@);
                assert(dv(ra@).take(j + 1).drop_last() =~= dv(ra@).take(j as int));
                assert(dv(ra@).take(j + 1).last() == ra@[j as int]@);
                j += 1;
            }
            assert(dv(ra@).take(ra@.len() as int) =~= dv(ra@));
            ra = tiep;
        }
        i += 1;
    }
    assert forall|j: int| 0 <= j < ra@.len() implies gia_doi_spec(k@, #[trigger] ra@[j]@) <= 9 by {
        lemma_gia_doi_chan(k@, ra@[j]@, k@.len() as int);
    }
    ra
}


/// Chữ cái dùng để chèn và thay: chữ cái ASCII cộng `đ`. Dấu phụ do phép đổi dấu
/// phụ lo.
pub open spec fn chu_cai_thay() -> Seq<char> {
    seq![
        'a', 'b', 'c', 'd', 'đ', 'e', 'g', 'h', 'i', 'k', 'l', 'm', 'n', 'o', 'p', 'q', 'r', 's',
        't', 'u', 'v', 'x', 'y', 'f', 'j', 'w', 'z',
    ]
}

/// Thay chữ thứ `i` bằng `c` có được xét không: phải đổi thật, và không bao
/// giờ đổi `đ` thành `d`.
pub open spec fn thay_duoc(k: Seq<char>, i: int, c: char) -> bool {
    c != k[i] && !(k[i] == 'đ' && c == 'd')
}

/// Giá của phép thay: 6, cộng 2 khi đụng vào nguyên âm.
pub open spec fn gia_thay(k: Seq<char>, i: int, c: char) -> u32 {
    if la_nguyen_am_spec(k[i]) || la_nguyen_am_spec(c) {
        8
    } else {
        6
    }
}

/// Các phép thay chữ thứ `i` bằng `m` chữ cái đầu của bảng.
pub open spec fn thay_den(k: Seq<char>, i: int, m: int) -> Seq<(Seq<char>, u32)>
    decreases m,
{
    if m <= 0 {
        seq![]
    } else if thay_duoc(k, i, chu_cai_thay()[m - 1]) {
        thay_den(k, i, m - 1).push(
            (k.update(i, chu_cai_thay()[m - 1]), gia_thay(k, i, chu_cai_thay()[m - 1])),
        )
    } else {
        thay_den(k, i, m - 1)
    }
}

/// Đảo chữ `i` với chữ `i + 1`.
pub open spec fn dao(k: Seq<char>, i: int) -> Seq<char> {
    k.update(i, k[i + 1]).update(i + 1, k[i])
}

/// Mọi phép sửa tại vị trí `i`: xoá (giá 6, khi còn ít nhất hai chữ), đảo với
/// chữ sau (giá 4), rồi thay bằng từng chữ cái.
pub open spec fn sua_tai(k: Seq<char>, i: int) -> Seq<(Seq<char>, u32)> {
    let xoa: Seq<(Seq<char>, u32)> = if k.len() >= 3 { seq![(k.remove(i), 6u32)] } else { seq![] };
    let doi: Seq<(Seq<char>, u32)> = if i + 1 < k.len() { seq![(dao(k, i), 4u32)] } else { seq![] };
    xoa + doi + thay_den(k, i, 27)
}

/// Các phép sửa tại mọi vị trí `0..n`.
pub open spec fn sua_den(k: Seq<char>, n: int) -> Seq<(Seq<char>, u32)>
    decreases n,
{
    if n <= 0 {
        seq![]
    } else {
        sua_den(k, n - 1) + sua_tai(k, n - 1)
    }
}

/// Chèn `m` chữ cái đầu của bảng vào vị trí `i`, giá 6.
pub open spec fn chen_tai(k: Seq<char>, i: int, m: int) -> Seq<(Seq<char>, u32)>
    decreases m,
{
    if m <= 0 {
        seq![]
    } else {
        chen_tai(k, i, m - 1).push((k.insert(i, chu_cai_thay()[m - 1]), 6u32))
    }
}

/// Các phép chèn vào mọi vị trí `0..n`.
pub open spec fn chen_den(k: Seq<char>, n: int) -> Seq<(Seq<char>, u32)>
    decreases n,
{
    if n <= 0 {
        seq![]
    } else {
        chen_den(k, n - 1) + chen_tai(k, n - 1, 27)
    }
}

/// Sửa một chữ: xoá, đảo, thay ở mọi vị trí, rồi chèn ở mọi vị trí kể cả hai đầu.
pub open spec fn sua_mot_chu_spec(k: Seq<char>) -> Seq<(Seq<char>, u32)> {
    sua_den(k, k.len() as int) + chen_den(k, k.len() + 1int)
}


proof fn lemma_sua_den_chua(k: Seq<char>, n: int, i: int, x: (Seq<char>, u32))
    requires
        0 <= i < n,
        sua_tai(k, i).contains(x),
    ensures
        sua_den(k, n).contains(x),
    decreases n,
{
    let j = choose|j: int| 0 <= j < sua_tai(k, i).len() && sua_tai(k, i)[j] == x;
    if i == n - 1 {
        let a = sua_den(k, n - 1);
        assert(sua_den(k, n)[a.len() + j] == x);
    } else {
        lemma_sua_den_chua(k, n - 1, i, x);
        let a = sua_den(k, n - 1);
        let q = choose|q: int| 0 <= q < a.len() && a[q] == x;
        assert(sua_den(k, n)[q] == x);
    }
}

/// Bớt một chữ được thử ở **mọi** vị trí: với mọi khung `k` từ ba chữ trở lên và
/// mọi vị trí `i`, các cách sửa một chữ có `k` bỏ chữ thứ `i`, giá 6 (`khôbng`
/// bỏ `b` ở giữa ra `không`).
pub proof fn lemma_bot_chu_moi_vi_tri(k: Seq<char>, i: int)
    requires
        k.len() >= 3,
        0 <= i < k.len(),
    ensures
        sua_mot_chu_spec(k).contains((k.remove(i), 6u32)),
{
    let x = (k.remove(i), 6u32);
    assert(sua_tai(k, i)[0] == x);
    lemma_sua_den_chua(k, k.len() as int, i, x);
    let q = choose|q: int| 0 <= q < sua_den(k, k.len() as int).len() && sua_den(k, k.len() as int)[q] == x;
    assert(sua_mot_chu_spec(k)[q] == x);
}

/// Dãy các cặp (dãy ký tự, giá), nhìn như dãy toán học.
pub open spec fn dvg(v: Seq<(Vec<char>, u32)>) -> Seq<(Seq<char>, u32)> {
    v.map_values(|p: (Vec<char>, u32)| (p.0@, p.1))
}

fn bang_chu_cai() -> (r: Vec<char>)
    ensures
        r@ == chu_cai_thay(),
{
    vec![
        'a', 'b', 'c', 'd', 'đ', 'e', 'g', 'h', 'i', 'k', 'l', 'm', 'n', 'o', 'p', 'q', 'r', 's',
        't', 'u', 'v', 'x', 'y', 'f', 'j', 'w', 'z',
    ]
}

fn day_them(ra: &mut Vec<(Vec<char>, u32)>, m: Vec<char>, g: u32)
    ensures
        dvg(final(ra)@) == dvg(old(ra)@).push((m@, g)),
        final(ra)@.len() == old(ra)@.len() + 1,
        forall|q: int| 0 <= q < old(ra)@.len() ==> #[trigger] final(ra)@[q] == old(ra)@[q],
        final(ra)@[old(ra)@.len() as int] == (m, g),
{
    ra.push((m, g));
    assert(dvg(ra@) =~= dvg(old(ra)@).push((m@, g)));
}

fn sua_mot_chu(k: &[char]) -> (r: Vec<(Vec<char>, u32)>)
    ensures
        dvg(r@) == sua_mot_chu_spec(k@),
        forall|q: int| 0 <= q < r@.len() ==> (#[trigger] r@[q]).1 <= 8,
{
    let bang = bang_chu_cai();
    let mut ra: Vec<(Vec<char>, u32)> = Vec::new();
    let mut i: usize = 0;
    while i < k.len()
        invariant
            i <= k.len(),
            bang@ == chu_cai_thay(),
            dvg(ra@) == sua_den(k@, i as int),
            forall|q: int| 0 <= q < ra@.len() ==> (#[trigger] ra@[q]).1 <= 8,
        decreases k.len() - i,
    {
        let ghost truoc = dvg(ra@);
        if k.len() >= 3 {
            let mut m = chep(k);
            m.remove(i);
            day_them(&mut ra, m, 6);
        }
        let ghost sau_xoa = dvg(ra@);
        if i + 1 < k.len() {
            let mut m = chep(k);
            let a = m[i];
            let b = m[i + 1];
            m.set(i, b);
            m.set(i + 1, a);
            assert(m@ == dao(k@, i as int));
            day_them(&mut ra, m, 4);
        }
        let ghost sau_doi = dvg(ra@);
        let mut j: usize = 0;
        while j < 27
            invariant
                i < k.len(),
                j <= 27,
                bang@ == chu_cai_thay(),
                dvg(ra@) == sau_doi + thay_den(k@, i as int, j as int),
                forall|q: int| 0 <= q < ra@.len() ==> (#[trigger] ra@[q]).1 <= 8,
            decreases 27 - j,
        {
            let c = bang[j];
            if c != k[i] && !(k[i] == 'đ' && c == 'd') {
                let mut m = chep(k);
                m.set(i, c);
                let g: u32 = if crate::am_tiet::la_nguyen_am(k[i]) || crate::am_tiet::la_nguyen_am(c) {
                    8
                } else {
                    6
                };
                day_them(&mut ra, m, g);
                assert(dvg(ra@) =~= sau_doi + thay_den(k@, i as int, j + 1));
            }
            j += 1;
        }
        assert(sua_tai(k@, i as int) =~= (sau_xoa.subrange(truoc.len() as int, sau_xoa.len() as int)
            + sau_doi.subrange(sau_xoa.len() as int, sau_doi.len() as int)) + thay_den(k@, i as int, 27));
        assert(dvg(ra@) =~= sua_den(k@, i + 1));
        i += 1;
    }
    let ghost het_sua = dvg(ra@);
    let mut i: usize = 0;
    loop
        invariant_except_break
            i <= k.len(),
            dvg(ra@) == het_sua + chen_den(k@, i as int),
        invariant
            bang@ == chu_cai_thay(),
            forall|q: int| 0 <= q < ra@.len() ==> (#[trigger] ra@[q]).1 <= 8,
        ensures
            dvg(ra@) == het_sua + chen_den(k@, k.len() + 1int),
        decreases k.len() - i,
    {
        let ghost truoc = dvg(ra@);
        let mut j: usize = 0;
        while j < 27
            invariant
                i <= k.len(),
                j <= 27,
                bang@ == chu_cai_thay(),
                dvg(ra@) == truoc + chen_tai(k@, i as int, j as int),
                forall|q: int| 0 <= q < ra@.len() ==> (#[trigger] ra@[q]).1 <= 8,
            decreases 27 - j,
        {
            let mut m = chep(k);
            m.insert(i, bang[j]);
            day_them(&mut ra, m, 6);
            assert(dvg(ra@) =~= truoc + chen_tai(k@, i as int, j + 1));
            j += 1;
        }
        assert(dvg(ra@) =~= het_sua + chen_den(k@, i + 1));
        if i == k.len() {
            break;
        }
        i += 1;
    }
    ra
}


/// Một cách sửa ở dạng toán học.
pub struct UngVienV {
    pub chu: Seq<char>,
    pub gia: nat,
}

/// Một cách sửa, kèm giá.
#[derive(Debug, Clone, PartialEq, Eq)]
pub struct UngVien {
    pub chu: String,
    /// Càng nhỏ càng giống bản gốc. Dùng để cắt danh sách, không phải để chọn.
    pub gia: u32,
}

impl View for UngVien {
    type V = UngVienV;

    open spec fn view(&self) -> UngVienV {
        UngVienV { chu: self.chu@, gia: self.gia as nat }
    }
}

/// Một cặp (chữ, giá) ở dạng toán học.
pub open spec fn uv_cua(p: (Vec<char>, u32)) -> UngVienV {
    UngVienV { chu: p.0@, gia: p.1 as nat }
}

/// Dãy các cặp (chữ, giá) ở dạng toán học.
pub open spec fn dvu(v: Seq<(Vec<char>, u32)>) -> Seq<UngVienV> {
    v.map_values(|p: (Vec<char>, u32)| uv_cua(p))
}

/// Gắn lần lượt các thanh `0..t` vào (âm đầu, vần), giữ những tiếng hợp lệ.
/// Giá: `g`, cộng 3 nếu khác thanh gốc, cộng 1 nếu số chữ khác `n`.
pub open spec fn them_thanh_den(ad: Seq<char>, van: Seq<char>, tg: u8, g: nat, n: nat, t: int) -> Seq<
    UngVienV,
>
    decreases t,
{
    if t <= 0 {
        seq![]
    } else {
        let th = (t - 1) as u8;
        let chu = ghep_spec(
            AmTietV { am_dau: ad, van: van, thanh: th, hoa_dau: false, hoa_het: false },
            false,
        );
        let truoc = them_thanh_den(ad, van, tg, g, n, t - 1);
        if thanh_hop_le_spec(van, th) && tach_spec(chu).is_some() {
            truoc.push(
                UngVienV {
                    chu: chu,
                    gia: g + (if th == tg { 0nat } else { 3nat }) + (if chu.len() != n { 1nat } else { 0nat }),
                },
            )
        } else {
            truoc
        }
    }
}

/// Với một khung chữ không thanh, thử gắn từng thanh rồi giữ cái nào ghép thành
/// tiếng hợp lệ.
pub open spec fn them_spec(khung: Seq<char>, tg: u8, g: nat, n: nat) -> Seq<UngVienV> {
    match tach_khung_spec(khung) {
        Some((ad, van)) => them_thanh_den(ad, van, tg, g, n, 6),
        None => seq![],
    }
}

fn them_moi_thanh(khung: &[char], tg: u8, g: u32, n: usize, ra: &mut Vec<(Vec<char>, u32)>)
    requires
        g <= 17,
    ensures
        dvu(final(ra)@) == dvu(old(ra)@) + them_spec(khung@, tg, g as nat, n as nat),
        final(ra)@.len() >= old(ra)@.len(),
        forall|q: int| 0 <= q < old(ra)@.len() ==> #[trigger] final(ra)@[q] == old(ra)@[q],
        forall|q: int| old(ra)@.len() <= q < final(ra)@.len() ==> (#[trigger] final(ra)@[q]).1 <= g + 4,
{
    let ghost goc = ra@;
    match tach_khung_ds(khung) {
        None => {
            assert(dvu(ra@) =~= dvu(goc) + seq![]);
        },
        Some((ad, van)) => {
            let khep = van_khep_ds(&van);
            let mut th: u8 = 0;
            assert(dvu(ra@) =~= dvu(goc) + seq![]);
            while th < 6
                invariant
                    th <= 6,
                    g <= 17,
                    khep == van_khep_spec(van@),
                    ra@.len() >= goc.len(),
                    forall|q: int| 0 <= q < goc.len() ==> #[trigger] ra@[q] == goc[q],
                    forall|q: int| goc.len() <= q < ra@.len() ==> (#[trigger] ra@[q]).1 <= g + 4,
                    dvu(ra@) == dvu(goc) + them_thanh_den(ad@, van@, tg, g as nat, n as nat, th as int),
                decreases 6 - th,
            {
                if !khep || th == SAC || th == NANG {
                    let chu = ghep_ds(&ad, &van, th, false, false, false);
                    if tach_ds(&chu).is_some() {
                        let phu: u32 = if th == tg { 0 } else { 3 };
                        let doi: u32 = if chu.len() != n { 1 } else { 0 };
                        let gia = g + phu + doi;
                        let ghost truoc = dvu(ra@);
                        ra.push((chu, gia));
                        assert(dvu(ra@) =~= truoc.push(uv_cua((chu, gia))));
                    }
                }
                th += 1;
            }
        },
    }
}

/// Gắn thanh cho từng khung trong `ds[..m]`, cùng một giá nền `g`.
pub open spec fn gop_co_dinh(ds: Seq<Seq<char>>, g: nat, tg: u8, n: nat, m: int) -> Seq<UngVienV>
    decreases m,
{
    if m <= 0 {
        seq![]
    } else {
        gop_co_dinh(ds, g, tg, n, m - 1) + them_spec(ds[m - 1], tg, g, n)
    }
}

/// Gắn thanh cho từng khung trong `ds[..m]`, giá nền `g0` cộng giá đổi dấu phụ
/// từ `goc` sang khung ấy.
pub open spec fn gop_doi(ds: Seq<Seq<char>>, goc: Seq<char>, g0: nat, tg: u8, n: nat, m: int) -> Seq<
    UngVienV,
>
    decreases m,
{
    if m <= 0 {
        seq![]
    } else {
        gop_doi(ds, goc, g0, tg, n, m - 1) + them_spec(ds[m - 1], tg, g0 + gia_doi_spec(goc, ds[m - 1]), n)
    }
}

/// Với từng phép sửa một chữ trong `ds[..m]`: gắn thanh cho chính nó, rồi cho mọi
/// tổ hợp đổi dấu phụ của nó.
pub open spec fn gop_sua(ds: Seq<(Seq<char>, u32)>, tg: u8, n: nat, m: int) -> Seq<UngVienV>
    decreases m,
{
    if m <= 0 {
        seq![]
    } else {
        let (bt, g) = ds[m - 1];
        let d = doi_dau_phu_spec(bt);
        gop_sua(ds, tg, n, m - 1) + them_spec(bt, tg, g as nat, n) + gop_doi(d, bt, g as nat, tg, n, d.len() as int)
    }
}

/// Thanh đầu tiên gặp trong `s[i..]`, hoặc thanh ngang.
pub open spec fn thanh_dau_tu(s: Seq<char>, i: int) -> u8
    decreases s.len() - i,
{
    if i < 0 || i >= s.len() {
        NGANG
    } else if bo_thanh_spec(s[i]).1 != NGANG {
        bo_thanh_spec(s[i]).1
    } else {
        thanh_dau_tu(s, i + 1)
    }
}

/// Danh sách ứng viên thô, trước khi xếp và cắt.
pub open spec fn tho_spec(t: Seq<char>) -> Seq<UngVienV> {
    let thap = thuong_cua(t);
    let tg = thanh_dau_tu(thap, 0);
    let kt = bo_thanh_chuoi_spec(thap);
    let n = thap.len();
    let lap = bo_ky_tu_lap_spec(kt);
    let doi = doi_dau_phu_spec(kt);
    let sua = sua_mot_chu_spec(kt);
    gop_co_dinh(lap, 0, tg, n, lap.len() as int) + gop_doi(doi, kt, 0, tg, n, doi.len() as int) + gop_sua(
        sua,
        tg,
        n,
        sua.len() as int,
    )
}


proof fn lemma_gop_sua_chua(ds: Seq<(Seq<char>, u32)>, tg: u8, n: nat, m: int, q: int, x: UngVienV)
    requires
        0 <= q < m <= ds.len(),
        them_spec(ds[q].0, tg, ds[q].1 as nat, n).contains(x),
    ensures
        gop_sua(ds, tg, n, m).contains(x),
    decreases m,
{
    let a = gop_sua(ds, tg, n, m - 1);
    if q == m - 1 {
        let b = them_spec(ds[q].0, tg, ds[q].1 as nat, n);
        let j = choose|j: int| 0 <= j < b.len() && b[j] == x;
        assert(gop_sua(ds, tg, n, m)[a.len() + j] == x);
    } else {
        lemma_gop_sua_chua(ds, tg, n, m - 1, q, x);
        let j = choose|j: int| 0 <= j < a.len() && a[j] == x;
        assert(gop_sua(ds, tg, n, m)[j] == x);
    }
}

/// Mọi tiếng hợp lệ dựng được bằng cách bỏ một chữ ở **bất kỳ** vị trí nào của
/// khung không thanh (rồi gắn thanh như mọi ứng viên sửa một chữ, giá 6) đều có
/// trong danh sách ứng viên thô của tiếng ấy (`khôbng` → `không`).
pub proof fn lemma_ung_vien_bot_chu(t: Seq<char>, i: int, x: UngVienV)
    requires
        bo_thanh_chuoi_spec(thuong_cua(t)).len() >= 3,
        0 <= i < bo_thanh_chuoi_spec(thuong_cua(t)).len(),
        them_spec(
            bo_thanh_chuoi_spec(thuong_cua(t)).remove(i),
            thanh_dau_tu(thuong_cua(t), 0),
            6,
            thuong_cua(t).len(),
        ).contains(x),
    ensures
        tho_spec(t).contains(x),
{
    let thap = thuong_cua(t);
    let tg = thanh_dau_tu(thap, 0);
    let kt = bo_thanh_chuoi_spec(thap);
    let n = thap.len();
    let sua = sua_mot_chu_spec(kt);
    lemma_bot_chu_moi_vi_tri(kt, i);
    let q = choose|q: int| 0 <= q < sua.len() && sua[q] == (kt.remove(i), 6u32);
    lemma_gop_sua_chua(sua, tg, n, sua.len() as int, q, x);
    let g = gop_sua(sua, tg, n, sua.len() as int);
    let j = choose|j: int| 0 <= j < g.len() && g[j] == x;
    let lap = bo_ky_tu_lap_spec(kt);
    let doi = doi_dau_phu_spec(kt);
    let ab = gop_co_dinh(lap, 0, tg, n, lap.len() as int) + gop_doi(doi, kt, 0, tg, n, doi.len() as int);
    assert(tho_spec(t) == ab + g);
    assert(tho_spec(t)[ab.len() + j] == x);
}

fn thanh_dau(s: &[char]) -> (r: u8)
    ensures
        r == thanh_dau_tu(s@, 0),
{
    let mut i: usize = 0;
    while i < s.len()
        invariant
            i <= s.len(),
            thanh_dau_tu(s@, 0) == thanh_dau_tu(s@, i as int),
        decreases s.len() - i,
    {
        let (_, t) = bo_thanh(s[i]);
        if t != NGANG {
            return t;
        }
        i += 1;
    }
    NGANG
}

fn gom_tho(tieng: &[char]) -> (r: Vec<(Vec<char>, u32)>)
    ensures
        dvu(r@) == tho_spec(tieng@),
        forall|q: int| 0 <= q < r@.len() ==> (#[trigger] r@[q]).1 <= 21,
{
    let thap = chuoi_thuong(tieng);
    let tg = thanh_dau(&thap);
    let kt = bo_thanh_ds(&thap);
    let n = thap.len();
    let mut ra: Vec<(Vec<char>, u32)> = Vec::new();
    let lap = bo_ky_tu_lap_ds(&kt);
    let mut i: usize = 0;
    while i < lap.len()
        invariant
            i <= lap.len(),
            dvu(ra@) == gop_co_dinh(dv(lap@), 0, tg, n as nat, i as int),
            forall|q: int| 0 <= q < ra@.len() ==> (#[trigger] ra@[q]).1 <= 21,
        decreases lap.len() - i,
    {
        them_moi_thanh(&lap[i], tg, GIA_BO_LAP, n, &mut ra);
        i += 1;
    }
    let ghost p1 = dvu(ra@);
    let doi = doi_dau_phu(&kt);
    let mut i: usize = 0;
    while i < doi.len()
        invariant
            i <= doi.len(),
            forall|j: int| 0 <= j < doi@.len() ==> gia_doi_spec(kt@, #[trigger] doi@[j]@) <= 9,
            dvu(ra@) == p1 + gop_doi(dv(doi@), kt@, 0, tg, n as nat, i as int),
            forall|q: int| 0 <= q < ra@.len() ==> (#[trigger] ra@[q]).1 <= 21,
        decreases doi.len() - i,
    {
        assert(gia_doi_spec(kt@, doi@[i as int]@) <= 9);
        let g = gia_doi_dau_phu(&kt, &doi[i]);
        them_moi_thanh(&doi[i], tg, g, n, &mut ra);
        i += 1;
    }
    let ghost p2 = dvu(ra@);
    let sua = sua_mot_chu(&kt);
    let mut i: usize = 0;
    while i < sua.len()
        invariant
            i <= sua.len(),
            forall|q: int| 0 <= q < sua@.len() ==> (#[trigger] sua@[q]).1 <= 8,
            dvu(ra@) == p2 + gop_sua(dvg(sua@), tg, n as nat, i as int),
            forall|q: int| 0 <= q < ra@.len() ==> (#[trigger] ra@[q]).1 <= 21,
        decreases sua.len() - i,
    {
        let bt = &sua[i].0;
        let g0 = sua[i].1;
        assert(g0 <= 8);
        them_moi_thanh(bt, tg, g0, n, &mut ra);
        let ghost p3 = dvu(ra@);
        let doi2 = doi_dau_phu(bt);
        let mut j: usize = 0;
        while j < doi2.len()
            invariant
                j <= doi2.len(),
                g0 <= 8,
                forall|q: int| 0 <= q < doi2@.len() ==> gia_doi_spec(bt@, #[trigger] doi2@[q]@) <= 9,
                dvu(ra@) == p3 + gop_doi(dv(doi2@), bt@, g0 as nat, tg, n as nat, j as int),
                forall|q: int| 0 <= q < ra@.len() ==> (#[trigger] ra@[q]).1 <= 21,
            decreases doi2.len() - j,
        {
            assert(gia_doi_spec(bt@, doi2@[j as int]@) <= 9);
            let g = g0 + gia_doi_dau_phu(bt, &doi2[j]);
            them_moi_thanh(&doi2[j], tg, g, n, &mut ra);
            j += 1;
        }
        assert(dvg(sua@)[i as int] == (bt@, g0));
        assert(dvu(ra@) =~= p2 + gop_sua(dvg(sua@), tg, n as nat, i + 1));
        i += 1;
    }
    assert(dvu(ra@) =~= tho_spec(tieng@));
    ra
}


/// Thứ tự từ điển của hai dãy ký tự theo mã điểm — đúng thứ tự `String` so byte
/// UTF-8, vì UTF-8 giữ thứ tự mã điểm.
pub open spec fn lex_lt(a: Seq<char>, b: Seq<char>) -> bool
    decreases a.len(),
{
    if a.len() == 0 {
        b.len() > 0
    } else if b.len() == 0 {
        false
    } else if a[0] != b[0] {
        a[0] < b[0]
    } else {
        lex_lt(a.drop_first(), b.drop_first())
    }
}

/// Thứ tự xếp ứng viên: giá tăng dần, cùng giá thì theo thứ tự từ điển của chữ.
pub open spec fn leq_uv(a: UngVienV, b: UngVienV) -> bool {
    a.gia < b.gia || (a.gia == b.gia && (a.chu == b.chu || lex_lt(a.chu, b.chu)))
}

/// [`leq_uv`] dưới dạng một hàm spec.
pub open spec fn thu_tu() -> spec_fn(UngVienV, UngVienV) -> bool {
    |a: UngVienV, b: UngVienV| leq_uv(a, b)
}

proof fn lemma_lex_bat_doi_xung(a: Seq<char>, b: Seq<char>)
    ensures
        lex_lt(a, b) ==> !lex_lt(b, a),
    decreases a.len(),
{
    if a.len() > 0 && b.len() > 0 && a[0] == b[0] {
        lemma_lex_bat_doi_xung(a.drop_first(), b.drop_first());
    }
}

proof fn lemma_lex_bac_cau(a: Seq<char>, b: Seq<char>, c: Seq<char>)
    ensures
        lex_lt(a, b) && lex_lt(b, c) ==> lex_lt(a, c),
    decreases a.len(),
{
    if a.len() > 0 && b.len() > 0 && c.len() > 0 && a[0] == b[0] && b[0] == c[0] {
        lemma_lex_bac_cau(a.drop_first(), b.drop_first(), c.drop_first());
    }
}

proof fn lemma_lex_toan_phan(a: Seq<char>, b: Seq<char>)
    ensures
        a != b ==> lex_lt(a, b) || lex_lt(b, a),
    decreases a.len(),
{
    if a.len() > 0 && b.len() > 0 && a[0] == b[0] {
        lemma_lex_toan_phan(a.drop_first(), b.drop_first());
        if a.drop_first() == b.drop_first() {
            assert(a =~= seq![a[0]] + a.drop_first());
            assert(b =~= seq![b[0]] + b.drop_first());
        }
    } else if a.len() == 0 && b.len() == 0 {
        assert(a =~= b);
    }
}

/// Thứ tự xếp ứng viên là một thứ tự toàn phần.
pub proof fn lemma_thu_tu_toan_phan()
    ensures
        total_ordering(thu_tu()),
{
    assert forall|x: UngVienV, y: UngVienV| #[trigger] thu_tu()(x, y) && #[trigger] thu_tu()(y, x) implies x == y by {
        lemma_lex_bat_doi_xung(x.chu, y.chu);
    }
    assert forall|x: UngVienV, y: UngVienV, z: UngVienV|
        #[trigger] thu_tu()(x, y) && #[trigger] thu_tu()(y, z) implies thu_tu()(x, z) by {
        lemma_lex_bac_cau(x.chu, y.chu, z.chu);
    }
    assert forall|x: UngVienV, y: UngVienV| #[trigger] thu_tu()(x, y) || #[trigger] thu_tu()(y, x) by {
        lemma_lex_toan_phan(x.chu, y.chu);
    }
}

fn lex_nho(a: &[char], b: &[char]) -> (r: bool)
    ensures
        r == lex_lt(a@, b@),
{
    let mut i: usize = 0;
    assert(a@.skip(0) =~= a@);
    assert(b@.skip(0) =~= b@);
    while i < a.len() && i < b.len()
        invariant
            i <= a.len(),
            i <= b.len(),
            lex_lt(a@, b@) == lex_lt(a@.skip(i as int), b@.skip(i as int)),
        decreases a.len() - i,
    {
        assert(a@.skip(i as int)[0] == a@[i as int]);
        assert(b@.skip(i as int)[0] == b@[i as int]);
        if a[i] != b[i] {
            return a[i] < b[i];
        }
        assert(a@.skip(i as int).drop_first() =~= a@.skip(i + 1));
        assert(b@.skip(i as int).drop_first() =~= b@.skip(i + 1));
        i += 1;
    }
    i < b.len()
}

fn truoc_hoac_bang(x: &(Vec<char>, u32), y: &(Vec<char>, u32)) -> (r: bool)
    ensures
        r == leq_uv(uv_cua(*x), uv_cua(*y)),
{
    x.1 < y.1 || (x.1 == y.1 && (crate::chuoi::bang_nhau(&x.0, &y.0) || lex_nho(&x.0, &y.0)))
}

proof fn lemma_chen_multiset(s: Seq<UngVienV>, p: int, x: UngVienV)
    requires
        0 <= p <= s.len(),
    ensures
        s.insert(p, x).to_multiset() == s.to_multiset().insert(x),
{
    broadcast use vstd::seq_lib::group_to_multiset_ensures;
    broadcast use vstd::multiset::group_multiset_axioms;

    let a = s.take(p);
    let b = s.skip(p);
    assert(s.insert(p, x) =~= a.push(x) + b);
    assert(s =~= a + b);
    vstd::seq_lib::lemma_multiset_commutative(a.push(x), b);
    vstd::seq_lib::lemma_multiset_commutative(a, b);
    assert(a.push(x).to_multiset() == a.to_multiset().insert(x));
    assert(s.insert(p, x).to_multiset() =~= s.to_multiset().insert(x));
}

fn xep(v: Vec<(Vec<char>, u32)>) -> (r: Vec<(Vec<char>, u32)>)
    ensures
        sorted_by(dvu(r@), thu_tu()),
        dvu(r@).to_multiset() == dvu(v@).to_multiset(),
{
    broadcast use vstd::seq_lib::group_to_multiset_ensures;
    broadcast use vstd::multiset::group_multiset_axioms;

    proof {
        lemma_thu_tu_toan_phan();
    }
    let ghost v0 = v@;
    let mut v = v;
    let mut r: Vec<(Vec<char>, u32)> = Vec::new();
    assert(dvu(v@) =~= dvu(v0));
    while v.len() > 0
        invariant
            total_ordering(thu_tu()),
            sorted_by(dvu(r@), thu_tu()),
            dvu(r@).to_multiset().add(dvu(v@).to_multiset()) == dvu(v0).to_multiset(),
        decreases v.len(),
    {
        let ghost vc = v@;
        let x = v.pop().unwrap();
        assert(vc =~= v@.push(x));
        assert(dvu(vc) =~= dvu(v@).push(uv_cua(x)));
        proof {
            dvu(v@).to_multiset_ensures();
        }
        assert(dvu(v@).push(uv_cua(x)).to_multiset() =~= dvu(v@).to_multiset().insert(uv_cua(x)));
        assert(dvu(vc).to_multiset() == dvu(v@).to_multiset().insert(uv_cua(x)));
        let mut p: usize = 0;
        while p < r.len() && truoc_hoac_bang(&r[p], &x)
            invariant
                p <= r.len(),
                forall|q: int| 0 <= q < p ==> leq_uv(uv_cua(#[trigger] r@[q]), uv_cua(x)),
            decreases r.len() - p,
        {
            p += 1;
        }
        let ghost rc = dvu(r@);
        let ghost r_cu = r@;
        let ghost ux = uv_cua(x);
        proof {
            if p < r.len() {
                assert(!leq_uv(rc[p as int], ux));
                assert(thu_tu()(rc[p as int], ux) || thu_tu()(ux, rc[p as int]));
                assert(leq_uv(ux, rc[p as int]));
            }
            assert forall|q: int| p <= q < rc.len() implies leq_uv(ux, #[trigger] rc[q]) by {
                if q > p {
                    assert(thu_tu()(rc[p as int], rc[q]));
                    assert(thu_tu()(ux, rc[p as int]) && thu_tu()(rc[p as int], rc[q]));
                }
            }
            assert forall|q: int| 0 <= q < p implies leq_uv(#[trigger] rc[q], ux) by {
                assert(leq_uv(uv_cua(r@[q]), uv_cua(x)));
            }
            lemma_chen_multiset(rc, p as int, ux);
        }
        r.insert(p, x);
        assert(dvu(r@) =~= rc.insert(p as int, ux));
        proof {
            let s2 = dvu(r@);
            assert forall|i: int, j: int| 0 <= i < j < s2.len() implies #[trigger] thu_tu()(s2[i], s2[j]) by {
                if j < p {
                    assert(thu_tu()(rc[i], rc[j]));
                } else if j == p {
                    assert(leq_uv(rc[i], ux));
                } else if i < p {
                    assert(leq_uv(rc[i], ux));
                    assert(leq_uv(ux, rc[j - 1]));
                    assert(thu_tu()(rc[i], ux) && thu_tu()(ux, rc[j - 1]));
                } else if i == p {
                    assert(leq_uv(ux, rc[j - 1]));
                } else {
                    assert(thu_tu()(rc[i - 1], rc[j - 1]));
                }
            }
            assert(dvu(r@).to_multiset().add(dvu(v@).to_multiset()) =~= dvu(v0).to_multiset());
        }
    }
    assert(dvu(v@) =~= Seq::<UngVienV>::empty());
    r
}


/// Bỏ các ứng viên trùng chữ **liền kề**, giữ cái đứng trước.
pub open spec fn bo_trung(s: Seq<UngVienV>) -> Seq<UngVienV>
    decreases s.len(),
{
    if s.len() == 0 {
        s
    } else {
        let d = bo_trung(s.drop_last());
        if d.len() > 0 && d.last().chu == s.last().chu {
            d
        } else {
            d.push(s.last())
        }
    }
}

/// Bỏ các ứng viên trùng với chính bản gốc.
pub open spec fn loc_khac(s: Seq<UngVienV>, thap: Seq<char>) -> Seq<UngVienV>
    decreases s.len(),
{
    if s.len() == 0 {
        s
    } else if s.last().chu != thap {
        loc_khac(s.drop_last(), thap).push(s.last())
    } else {
        loc_khac(s.drop_last(), thap)
    }
}

/// Giữ tối đa `n` phần tử đầu.
pub open spec fn cat_bot(s: Seq<UngVienV>, n: nat) -> Seq<UngVienV> {
    if s.len() > n {
        s.take(n as int)
    } else {
        s
    }
}

/// Viết hoa chữ đầu theo `char::to_uppercase`.
pub open spec fn viet_hoa_dau(c: Seq<char>) -> Seq<char> {
    if c.len() > 0 {
        hoa_ky_tu(c[0]) + c.skip(1)
    } else {
        c
    }
}

/// Trần số ứng viên trả về.
pub open spec fn toi_da_ung_vien() -> nat {
    40
}

/// Danh sách ứng viên đã xếp và cắt, trước khi trả lại kiểu viết hoa.
pub open spec fn xep_cat_spec(t: Seq<char>) -> Seq<UngVienV> {
    cat_bot(loc_khac(bo_trung(tho_spec(t).sort_by(thu_tu())), thuong_cua(t)), toi_da_ung_vien())
}

/// Kết quả của [`sinh`]: ứng viên thô xếp theo (giá, chữ), bỏ trùng liền kề,
/// bỏ chính bản gốc, giữ tối đa 40, rồi viết hoa chữ đầu nếu bản gốc viết hoa.
pub open spec fn sinh_spec(t: Seq<char>) -> Seq<UngVienV> {
    let x = xep_cat_spec(t);
    if t.len() > 0 && la_hoa(t[0]) {
        x.map_values(|u: UngVienV| UngVienV { chu: viet_hoa_dau(u.chu), gia: u.gia })
    } else {
        x
    }
}

/// Sinh các cách sửa cho một tiếng, đã lọc và xếp hạng.
///
/// `tieng` đưa vào dạng nào thì trả về dạng ấy về mặt viết hoa.
pub fn sinh(tieng: &str) -> (r: Vec<UngVien>)
    ensures
        r@.map_values(|u: UngVien| u@) == sinh_spec(tieng@),
{
    let t = ky_tu(tieng);
    let tho = gom_tho(&t);
    let ghost tho_v = dvu(tho@);
    let x = xep(tho);
    proof {
        lemma_thu_tu_toan_phan();
        tho_v.lemma_sort_by_ensures(thu_tu());
        vstd::seq_lib::lemma_sorted_unique(dvu(x@), tho_v.sort_by(thu_tu()), thu_tu());
    }
    let mut d: Vec<(Vec<char>, u32)> = Vec::new();
    let mut i: usize = 0;
    assert(dvu(x@).take(0) =~= Seq::<UngVienV>::empty());
    while i < x.len()
        invariant
            i <= x.len(),
            dvu(d@) == bo_trung(dvu(x@).take(i as int)),
        decreases x.len() - i,
    {
        assert(dvu(x@).take(i + 1).drop_last() =~= dvu(x@).take(i as int));
        let trung = d.len() > 0 && crate::chuoi::bang_nhau(&d[d.len() - 1].0, &x[i].0);
        if !trung {
            let m = chep(&x[i].0);
            let ghost truoc = dvu(d@);
            d.push((m, x[i].1));
            assert(dvu(d@) =~= truoc.push(uv_cua(x@[i as int])));
        }
        i += 1;
    }
    assert(dvu(x@).take(x.len() as int) =~= dvu(x@));
    let thap = chuoi_thuong(&t);
    let mut e: Vec<(Vec<char>, u32)> = Vec::new();
    let mut i: usize = 0;
    assert(dvu(d@).take(0) =~= Seq::<UngVienV>::empty());
    while i < d.len()
        invariant
            i <= d.len(),
            thap@ == thuong_cua(t@),
            dvu(e@) == loc_khac(dvu(d@).take(i as int), thap@),
        decreases d.len() - i,
    {
        assert(dvu(d@).take(i + 1).drop_last() =~= dvu(d@).take(i as int));
        if !crate::chuoi::bang_nhau(&d[i].0, &thap) {
            let m = chep(&d[i].0);
            let ghost truoc = dvu(e@);
            e.push((m, d[i].1));
            assert(dvu(e@) =~= truoc.push(uv_cua(d@[i as int])));
        }
        i += 1;
    }
    assert(dvu(d@).take(d.len() as int) =~= dvu(d@));
    let hoa_dau = t.len() > 0 && hoa(t[0]);
    let n: usize = if e.len() > 40 { 40 } else { e.len() };
    let ghost y = cat_bot(dvu(e@), 40);
    let ghost dich = if hoa_dau {
        y.map_values(|u: UngVienV| UngVienV { chu: viet_hoa_dau(u.chu), gia: u.gia })
    } else {
        y
    };
    let mut r: Vec<UngVien> = Vec::new();
    let mut i: usize = 0;
    while i < n
        invariant
            i <= n,
            n == y.len(),
            n <= e.len(),
            y == cat_bot(dvu(e@), 40),
            dich == (if hoa_dau {
                y.map_values(|u: UngVienV| UngVienV { chu: viet_hoa_dau(u.chu), gia: u.gia })
            } else {
                y
            }),
            r@.map_values(|u: UngVien| u@) == dich.take(i as int),
        decreases n - i,
    {
        let goc = &e[i].0;
        let chu = if hoa_dau && goc.len() > 0 {
            let h = ky_tu_hoa(goc[0]);
            let sau = crate::chuoi::cat_doan(goc, 1, goc.len());
            assert(sau@ == goc@.skip(1));
            crate::chuoi::noi(&h, &sau)
        } else {
            chep(goc)
        };
        let u = UngVien { chu: crate::chuoi::chuoi(&chu), gia: e[i].1 };
        let ghost truoc = r@.map_values(|u: UngVien| u@);
        r.push(u);
        assert(y[i as int] == uv_cua(e@[i as int]));
        assert(r@.map_values(|u: UngVien| u@) =~= truoc.push(dich[i as int]));
        assert(dich.take(i + 1) =~= dich.take(i as int).push(dich[i as int]));
        i += 1;
    }
    assert(dich.take(n as int) =~= dich);
    r
}


/// Mọi ứng viên trong dãy đều là một tiếng tách được.
pub open spec fn deu_hop_le(s: Seq<UngVienV>) -> bool {
    forall|i: int| 0 <= i < s.len() ==> (#[trigger] tach_spec(s[i].chu)).is_some()
}

/// Mọi phần tử của `s` đều có mặt trong `goc`.
pub open spec fn nam_trong(s: Seq<UngVienV>, goc: Seq<UngVienV>) -> bool {
    forall|i: int| 0 <= i < s.len() ==> goc.contains(#[trigger] s[i])
}

/// Giá không giảm dọc theo dãy.
pub open spec fn gia_khong_giam(s: Seq<UngVienV>) -> bool {
    forall|i: int, j: int| 0 <= i < j < s.len() ==> #[trigger] s[i].gia <= #[trigger] s[j].gia
}

proof fn lemma_them_thanh_hop_le(ad: Seq<char>, van: Seq<char>, tg: u8, g: nat, n: nat, t: int)
    ensures
        deu_hop_le(them_thanh_den(ad, van, tg, g, n, t)),
    decreases t,
{
    if t > 0 {
        lemma_them_thanh_hop_le(ad, van, tg, g, n, t - 1);
    }
}

proof fn lemma_them_hop_le(khung: Seq<char>, tg: u8, g: nat, n: nat)
    ensures
        deu_hop_le(them_spec(khung, tg, g, n)),
{
    match tach_khung_spec(khung) {
        Some((ad, van)) => lemma_them_thanh_hop_le(ad, van, tg, g, n, 6),
        None => {},
    }
}

proof fn lemma_noi_hop_le(a: Seq<UngVienV>, b: Seq<UngVienV>)
    requires
        deu_hop_le(a),
        deu_hop_le(b),
    ensures
        deu_hop_le(a + b),
{
    assert forall|i: int| 0 <= i < (a + b).len() implies (#[trigger] tach_spec((a + b)[i].chu)).is_some() by {
        if i < a.len() {
            assert((a + b)[i] == a[i]);
        } else {
            assert((a + b)[i] == b[i - a.len()]);
        }
    }
}

proof fn lemma_gop_co_dinh_hop_le(ds: Seq<Seq<char>>, g: nat, tg: u8, n: nat, m: int)
    ensures
        deu_hop_le(gop_co_dinh(ds, g, tg, n, m)),
    decreases m,
{
    if m > 0 {
        lemma_gop_co_dinh_hop_le(ds, g, tg, n, m - 1);
        lemma_them_hop_le(ds[m - 1], tg, g, n);
        lemma_noi_hop_le(gop_co_dinh(ds, g, tg, n, m - 1), them_spec(ds[m - 1], tg, g, n));
    }
}

proof fn lemma_gop_doi_hop_le(ds: Seq<Seq<char>>, goc: Seq<char>, g0: nat, tg: u8, n: nat, m: int)
    ensures
        deu_hop_le(gop_doi(ds, goc, g0, tg, n, m)),
    decreases m,
{
    if m > 0 {
        lemma_gop_doi_hop_le(ds, goc, g0, tg, n, m - 1);
        let g = g0 + gia_doi_spec(goc, ds[m - 1]);
        lemma_them_hop_le(ds[m - 1], tg, g, n);
        lemma_noi_hop_le(gop_doi(ds, goc, g0, tg, n, m - 1), them_spec(ds[m - 1], tg, g, n));
    }
}

proof fn lemma_gop_sua_hop_le(ds: Seq<(Seq<char>, u32)>, tg: u8, n: nat, m: int)
    ensures
        deu_hop_le(gop_sua(ds, tg, n, m)),
    decreases m,
{
    if m > 0 {
        let (bt, g) = ds[m - 1];
        let d = doi_dau_phu_spec(bt);
        lemma_gop_sua_hop_le(ds, tg, n, m - 1);
        lemma_them_hop_le(bt, tg, g as nat, n);
        lemma_gop_doi_hop_le(d, bt, g as nat, tg, n, d.len() as int);
        lemma_noi_hop_le(gop_sua(ds, tg, n, m - 1), them_spec(bt, tg, g as nat, n));
        lemma_noi_hop_le(
            gop_sua(ds, tg, n, m - 1) + them_spec(bt, tg, g as nat, n),
            gop_doi(d, bt, g as nat, tg, n, d.len() as int),
        );
    }
}

proof fn lemma_tho_hop_le(t: Seq<char>)
    ensures
        deu_hop_le(tho_spec(t)),
{
    let thap = thuong_cua(t);
    let tg = thanh_dau_tu(thap, 0);
    let kt = bo_thanh_chuoi_spec(thap);
    let n = thap.len();
    let lap = bo_ky_tu_lap_spec(kt);
    let doi = doi_dau_phu_spec(kt);
    let sua = sua_mot_chu_spec(kt);
    lemma_gop_co_dinh_hop_le(lap, 0, tg, n, lap.len() as int);
    lemma_gop_doi_hop_le(doi, kt, 0, tg, n, doi.len() as int);
    lemma_gop_sua_hop_le(sua, tg, n, sua.len() as int);
    lemma_noi_hop_le(gop_co_dinh(lap, 0, tg, n, lap.len() as int), gop_doi(doi, kt, 0, tg, n, doi.len() as int));
    lemma_noi_hop_le(
        gop_co_dinh(lap, 0, tg, n, lap.len() as int) + gop_doi(doi, kt, 0, tg, n, doi.len() as int),
        gop_sua(sua, tg, n, sua.len() as int),
    );
}

proof fn lemma_bo_trung_con(s: Seq<UngVienV>)
    ensures
        nam_trong(bo_trung(s), s),
    decreases s.len(),
{
    if s.len() > 0 {
        lemma_bo_trung_con(s.drop_last());
        let d = bo_trung(s.drop_last());
        assert forall|i: int| 0 <= i < bo_trung(s).len() implies s.contains(#[trigger] bo_trung(s)[i]) by {
            if i < d.len() {
                assert(s.drop_last().contains(d[i]));
                let j = choose|j: int| 0 <= j < s.drop_last().len() && s.drop_last()[j] == d[i];
                assert(s[j] == d[i]);
            } else {
                assert(s[s.len() - 1] == s.last());
            }
        }
    }
}

proof fn lemma_loc_khac_con(s: Seq<UngVienV>, thap: Seq<char>)
    ensures
        nam_trong(loc_khac(s, thap), s),
        forall|i: int| 0 <= i < loc_khac(s, thap).len() ==> (#[trigger] loc_khac(s, thap)[i]).chu != thap,
    decreases s.len(),
{
    if s.len() > 0 {
        lemma_loc_khac_con(s.drop_last(), thap);
        let d = loc_khac(s.drop_last(), thap);
        assert forall|i: int| 0 <= i < loc_khac(s, thap).len() implies s.contains(
            #[trigger] loc_khac(s, thap)[i],
        ) by {
            if i < d.len() {
                assert(s.drop_last().contains(d[i]));
                let j = choose|j: int| 0 <= j < s.drop_last().len() && s.drop_last()[j] == d[i];
                assert(s[j] == d[i]);
            } else {
                assert(s[s.len() - 1] == s.last());
            }
        }
    }
}

proof fn lemma_bo_trung_tang(s: Seq<UngVienV>)
    requires
        gia_khong_giam(s),
    ensures
        gia_khong_giam(bo_trung(s)),
    decreases s.len(),
{
    if s.len() > 0 {
        lemma_bo_trung_tang(s.drop_last());
        lemma_bo_trung_con(s.drop_last());
        let d = bo_trung(s.drop_last());
        assert forall|i: int| 0 <= i < d.len() implies #[trigger] d[i].gia <= s.last().gia by {
            assert(s.drop_last().contains(d[i]));
            let j = choose|j: int| 0 <= j < s.drop_last().len() && s.drop_last()[j] == d[i];
            assert(s[j] == d[i]);
        }
    }
}

proof fn lemma_loc_khac_tang(s: Seq<UngVienV>, thap: Seq<char>)
    requires
        gia_khong_giam(s),
    ensures
        gia_khong_giam(loc_khac(s, thap)),
    decreases s.len(),
{
    if s.len() > 0 {
        lemma_loc_khac_tang(s.drop_last(), thap);
        lemma_loc_khac_con(s.drop_last(), thap);
        let d = loc_khac(s.drop_last(), thap);
        assert forall|i: int| 0 <= i < d.len() implies #[trigger] d[i].gia <= s.last().gia by {
            assert(s.drop_last().contains(d[i]));
            let j = choose|j: int| 0 <= j < s.drop_last().len() && s.drop_last()[j] == d[i];
            assert(s[j] == d[i]);
        }
    }
}

/// Danh sách ứng viên đã xếp và cắt (trước khi trả lại kiểu viết hoa) luôn:
/// gồm toàn tiếng tách được, không chứa chính bản gốc đã hạ chữ thường, không
/// quá 40 mục, và xếp giá từ rẻ tới đắt.
pub proof fn lemma_xep_cat(t: Seq<char>)
    ensures
        deu_hop_le(xep_cat_spec(t)),
        forall|i: int| 0 <= i < xep_cat_spec(t).len() ==> (#[trigger] xep_cat_spec(t)[i]).chu != thuong_cua(t),
        xep_cat_spec(t).len() <= 40,
        gia_khong_giam(xep_cat_spec(t)),
{
    let tho = tho_spec(t);
    lemma_thu_tu_toan_phan();
    tho.lemma_sort_by_ensures(thu_tu());
    let x = tho.sort_by(thu_tu());
    let d = bo_trung(x);
    let e = loc_khac(d, thuong_cua(t));
    let y = xep_cat_spec(t);
    lemma_tho_hop_le(t);
    lemma_bo_trung_con(x);
    lemma_loc_khac_con(d, thuong_cua(t));
    assert(gia_khong_giam(x)) by {
        assert forall|i: int, j: int| 0 <= i < j < x.len() implies #[trigger] x[i].gia <= #[trigger] x[j].gia by {
            assert(thu_tu()(x[i], x[j]));
        }
    }
    lemma_bo_trung_tang(x);
    lemma_loc_khac_tang(d, thuong_cua(t));
    assert forall|i: int| 0 <= i < y.len() implies (#[trigger] tach_spec(y[i].chu)).is_some() by {
        assert(y[i] == e[i]);
        assert(d.contains(e[i]));
        let j = choose|j: int| 0 <= j < d.len() && d[j] == e[i];
        assert(x.contains(d[j]));
        let k = choose|k: int| 0 <= k < x.len() && x[k] == d[j];
        assert(tho.contains(x[k]));
        let m = choose|m: int| 0 <= m < tho.len() && tho[m] == x[k];
        assert(tach_spec(tho[m].chu).is_some());
    }
    assert forall|i: int| 0 <= i < y.len() implies (#[trigger] y[i]).chu != thuong_cua(t) by {
        assert(y[i] == e[i]);
    }
}

/// Với tiếng không mở đầu bằng chữ hoa, mọi ứng viên của [`sinh`] đều là một
/// tiếng viết đúng cấu tạo — không bao giờ đổi một lỗi lấy một lỗi khác — và
/// không trùng với chính bản gốc.
pub proof fn lemma_sinh_dung_cau_tao(t: Seq<char>)
    requires
        !(t.len() > 0 && la_hoa(t[0])),
    ensures
        deu_hop_le(sinh_spec(t)),
        forall|i: int| 0 <= i < sinh_spec(t).len() ==> (#[trigger] sinh_spec(t)[i]).chu != thuong_cua(t),
{
    lemma_xep_cat(t);
}

/// Với một tiếng viết hoa chữ đầu, mỗi ứng viên là một ứng viên hợp cấu tạo của
/// dạng viết thường (khác chính nó), viết hoa chữ đầu, cùng giá và cùng thứ tự.
pub proof fn lemma_sinh_viet_hoa(t: Seq<char>)
    requires
        t.len() > 0 && la_hoa(t[0]),
    ensures
        deu_hop_le(xep_cat_spec(t)),
        sinh_spec(t).len() == xep_cat_spec(t).len(),
        forall|i: int| 0 <= i < sinh_spec(t).len() ==> {
            &&& (#[trigger] sinh_spec(t)[i]).chu == viet_hoa_dau(xep_cat_spec(t)[i].chu)
            &&& sinh_spec(t)[i].gia == xep_cat_spec(t)[i].gia
            &&& xep_cat_spec(t)[i].chu != thuong_cua(t)
        },
{
    lemma_xep_cat(t);
}

/// [`sinh`] trả tối đa 40 ứng viên, giá không giảm dọc danh sách, dù viết hoa
/// hay không.
pub proof fn lemma_sinh_xep_theo_gia(t: Seq<char>)
    ensures
        sinh_spec(t).len() <= 40,
        gia_khong_giam(sinh_spec(t)),
{
    lemma_xep_cat(t);
    let x = xep_cat_spec(t);
    if t.len() > 0 && la_hoa(t[0]) {
        let f = |u: UngVienV| UngVienV { chu: viet_hoa_dau(u.chu), gia: u.gia };
        assert forall|i: int, j: int| 0 <= i < j < sinh_spec(t).len() implies #[trigger] sinh_spec(t)[i].gia
            <= #[trigger] sinh_spec(t)[j].gia by {
            assert(sinh_spec(t)[i] == f(x[i]));
            assert(sinh_spec(t)[j] == f(x[j]));
        }
    }
}


/// Mọi cách bỏ **một** ký tự trong một cặp ký tự lặp của một khung chữ.
///
/// Hai nhóm được miễn: `oo` là chữ thật (`xoong`, `boong`), còn chữ mang dấu
/// phụ (`ưư`, `ôô`, `đđ`…) thì để tầng dấu phụ lo.
pub fn bo_ky_tu_lap(khung: &str) -> (r: Vec<String>)
    ensures
        r@.map_values(|x: String| x@) == bo_ky_tu_lap_spec(khung@),
{
    let k = ky_tu(khung);
    let v = bo_ky_tu_lap_ds(&k);
    let mut r: Vec<String> = Vec::new();
    let mut i: usize = 0;
    while i < v.len()
        invariant
            i <= v.len(),
            dv(v@) == bo_ky_tu_lap_spec(k@),
            r@.map_values(|x: String| x@) == dv(v@).take(i as int),
        decreases v.len() - i,
    {
        let ghost truoc = r@.map_values(|x: String| x@);
        r.push(crate::chuoi::chuoi(&v[i]));
        assert(r@.map_values(|x: String| x@) =~= truoc.push(v@[i as int]@));
        assert(dv(v@).take(i + 1) =~= dv(v@).take(i as int).push(v@[i as int]@));
        i += 1;
    }
    assert(dv(v@).take(v.len() as int) =~= dv(v@));
    r
}

} // verus!
