//! Dấu thanh đặt sai chỗ, và chuyện kiểu cũ / kiểu mới.
//!
//! **Sai thật**: `qúy`, `gía`, `thùơng` — chữ `u` trong `qu` và `i` trong `gi`
//! thuộc âm đầu, dấu thanh không rơi vào đó được. Sửa thẳng.
//!
//! **Khác kiểu**: `hòa` với `hoà`, `thùy` với `thuỳ`. Cả hai đều đúng, nên chỉ có
//! chuyện một cuốn sách nên nhất quán: **đếm cả sách trước** rồi mới kéo về phe
//! đông hơn. Chỉ ba vần mở `oa`, `oe`, `uy` mới có chuyện hai kiểu.
use vstd::prelude::*;
use crate::am_tiet::{ghep_ds, ghep_spec, lemma_tach_ghep_duoc, tach_ds, tach_spec, AmTiet, AmTietV, NGANG};
use crate::chuoi::{bang_nhau, chuoi, ky_tu};
use crate::hoa_thuong::{chuoi_thuong, thuong_cua};
use crate::sua::{DoChac, Loai, SuaDoi, SuaDoiV};
use crate::tach_tu::{cat, cat_spec, dang_tu, dang_tu_spec, tu_cua, DangTu};

verus! {

/// Kiểu đặt dấu của cả cuốn sách, đếm được từ chính nó.
#[derive(Debug, Clone, Copy, PartialEq, Eq, Structural, Default)]
pub enum Kieu {
    /// Kiểu tuyệt đại đa số sách in dùng, nên là mặc định khi chưa đếm được gì.
    #[default]
    Cu,
    Moi,
}

/// Đếm phiếu cho hai kiểu đặt dấu.
#[derive(Debug, Default, Clone, Copy)]
pub struct DemKieu {
    pub cu: usize,
    pub moi: usize,
}

impl DemKieu {
    /// Kiểu chiếm đa số. Hoà hoặc không có mẫu nào thì chọn **kiểu cũ**.
    pub fn kieu_chinh(&self) -> (r: Kieu)
        ensures
            r == (if self.moi > self.cu { Kieu::Moi } else { Kieu::Cu }),
    {
        if self.moi > self.cu {
            Kieu::Moi
        } else {
            Kieu::Cu
        }
    }
}

/// Vần này có nhập nhằng hai kiểu đặt dấu không: vần `oa`, `oe`, `uy` mang thanh.
pub open spec fn co_hai_kieu_spec(at: AmTietV) -> bool {
    (at.van == seq!['o', 'a'] || at.van == seq!['o', 'e'] || at.van == seq!['u', 'y']) && at.thanh != NGANG
}

fn co_hai_kieu(van: &[char], thanh: u8) -> (r: bool)
    ensures
        r == ((van@ == seq!['o', 'a'] || van@ == seq!['o', 'e'] || van@ == seq!['u', 'y']) && thanh != NGANG),
{
    let hai = van.len() == 2 && ((van[0] == 'o' && (van[1] == 'a' || van[1] == 'e')) || (van[0] == 'u' && van[1]
        == 'y'));
    proof {
        if van@.len() == 2 {
            if van@[0] == 'o' && van@[1] == 'a' {
                assert(van@ =~= seq!['o', 'a']);
            }
            if van@[0] == 'o' && van@[1] == 'e' {
                assert(van@ =~= seq!['o', 'e']);
            }
            if van@[0] == 'u' && van@[1] == 'y' {
                assert(van@ =~= seq!['u', 'y']);
            }
        }
    }
    hai && thanh != NGANG
}

/// Phiếu một tiếng bỏ cho kiểu đặt dấu: 1 là kiểu cũ, 2 là kiểu mới, 0 là không
/// bỏ phiếu (không phải tiếng Việt, không tách được, không nhập nhằng, hoặc
/// không khớp kiểu nào khi bỏ qua hoa thường).
pub open spec fn phieu(chu: Seq<char>) -> int {
    if dang_tu_spec(chu) != DangTu::TiengViet {
        0
    } else {
        match tach_spec(chu) {
            None => 0,
            Some(at) => if !co_hai_kieu_spec(at) {
                0
            } else if thuong_cua(chu) == thuong_cua(ghep_spec(at, false)) {
                1
            } else if thuong_cua(chu) == thuong_cua(ghep_spec(at, true)) {
                2
            } else {
                0
            },
        }
    }
}

/// Số tiếng trong `n` tiếng đầu của văn bản bỏ phiếu `loai`.
pub open spec fn dem_phieu(s: Seq<char>, n: int, loai: int) -> nat
    decreases n,
{
    if n <= 0 {
        0
    } else {
        dem_phieu(s, n - 1, loai) + if phieu(tu_cua(s, cat_spec(s)[n - 1]).chu) == loai { 1nat } else { 0nat }
    }
}


proof fn lemma_dem_phieu_dau(a: Seq<char>, b: Seq<char>, n: int, loai: int)
    requires
        0 <= n <= cat_spec(a).len(),
    ensures
        dem_phieu(a + seq![' '] + b, n, loai) == dem_phieu(a, n, loai),
    decreases n,
{
    if n > 0 {
        let s = a + seq![' '] + b;
        lemma_dem_phieu_dau(a, b, n - 1, loai);
        crate::tach_tu::lemma_cat_noi(a, b);
        crate::tach_tu::lemma_cat_tang(a);
        let k = cat_spec(a)[n - 1];
        assert(cat_spec(s)[n - 1] == k);
        assert(s.subrange(k.0, k.1) =~= a.subrange(k.0, k.1));
    }
}

proof fn lemma_dem_phieu_sau(a: Seq<char>, b: Seq<char>, t: int, loai: int)
    requires
        0 <= t <= cat_spec(b).len(),
    ensures
        dem_phieu(a + seq![' '] + b, cat_spec(a).len() + t, loai) == dem_phieu(a, cat_spec(a).len() as int, loai)
            + dem_phieu(b, t, loai),
    decreases t,
{
    let s = a + seq![' '] + b;
    if t == 0 {
        lemma_dem_phieu_dau(a, b, cat_spec(a).len() as int, loai);
    } else {
        lemma_dem_phieu_sau(a, b, t - 1, loai);
        crate::tach_tu::lemma_cat_noi(a, b);
        crate::tach_tu::lemma_cat_tang(b);
        let l = a.len() + 1int;
        let k = cat_spec(b)[t - 1];
        assert(cat_spec(s)[cat_spec(a).len() + t - 1] == (k.0 + l, k.1 + l));
        assert(s.subrange(k.0 + l, k.1 + l) =~= b.subrange(k.0, k.1));
    }
}

/// Phiếu kiểu đặt dấu cộng dồn được: đếm trên hai đoạn nối nhau bằng một khoảng
/// trắng bằng đếm trên từng đoạn rồi cộng lại.
pub proof fn lemma_dem_cong(a: Seq<char>, b: Seq<char>, loai: int)
    ensures
        dem_phieu(a + seq![' '] + b, cat_spec(a + seq![' '] + b).len() as int, loai) == dem_phieu(
            a,
            cat_spec(a).len() as int,
            loai,
        ) + dem_phieu(b, cat_spec(b).len() as int, loai),
{
    crate::tach_tu::lemma_cat_noi(a, b);
    lemma_dem_phieu_sau(a, b, cat_spec(b).len() as int, loai);
}

/// Số phiếu đếm trên `n` tiếng không vượt `n`.
pub proof fn lemma_dem_phieu_chan(s: Seq<char>, n: int, loai: int)
    requires
        0 <= n,
    ensures
        dem_phieu(s, n, loai) <= n,
    decreases n,
{
    if n > 0 {
        lemma_dem_phieu_chan(s, n - 1, loai);
    }
}

/// Ghép lại một âm tiết (đã biết tách được) theo kiểu đặt dấu cho trước.
fn ghep_lai(at: &AmTiet, kieu_moi: bool) -> (r: Vec<char>)
    requires
        at@.thanh < 6,
    ensures
        r@ == ghep_spec(at@, kieu_moi),
{
    let ad = ky_tu(&at.am_dau);
    let van = ky_tu(&at.van);
    ghep_ds(&ad, &van, at.thanh, at.hoa_dau, at.hoa_het, kieu_moi)
}

fn phieu_cua(chu: &str) -> (r: u8)
    ensures
        r as int == phieu(chu@),
{
    if dang_tu(chu) != DangTu::TiengViet {
        return 0;
    }
    let v = ky_tu(chu);
    proof {
        lemma_tach_ghep_duoc(chu@);
    }
    match tach_ds(&v) {
        None => 0,
        Some(at) => {
            let van = ky_tu(&at.van);
            if !co_hai_kieu(&van, at.thanh) {
                return 0;
            }
            let thap = chuoi_thuong(&v);
            let cu = chuoi_thuong(&ghep_lai(&at, false));
            if bang_nhau(&thap, &cu) {
                return 1;
            }
            let moi = chuoi_thuong(&ghep_lai(&at, true));
            if bang_nhau(&thap, &moi) {
                2
            } else {
                0
            }
        },
    }
}

/// Đếm phiếu kiểu đặt dấu trong một đoạn văn bản, cộng dồn vào `dem`. Gọi cho
/// mọi đoạn của sách rồi mới chạy [`soat`].
pub fn dem(van_ban: &str, dem: &mut DemKieu)
    requires
        old(dem).cu + van_ban@.len() <= usize::MAX,
        old(dem).moi + van_ban@.len() <= usize::MAX,
    ensures
        final(dem).cu == old(dem).cu + dem_phieu(van_ban@, cat_spec(van_ban@).len() as int, 1),
        final(dem).moi == old(dem).moi + dem_phieu(van_ban@, cat_spec(van_ban@).len() as int, 2),
{
    let tu = cat(van_ban);
    let ghost cu0 = dem.cu;
    let ghost moi0 = dem.moi;
    proof {
        crate::tach_tu::lemma_so_tu_chan(van_ban@);
    }
    let mut i: usize = 0;
    while i < tu.len()
        invariant
            i <= tu.len(),
            tu@.len() == cat_spec(van_ban@).len(),
            tu@.len() <= van_ban@.len(),
            forall|q: int| 0 <= q < tu@.len() ==> #[trigger] tu@[q]@ == tu_cua(van_ban@, cat_spec(van_ban@)[q]),
            cu0 + van_ban@.len() <= usize::MAX,
            moi0 + van_ban@.len() <= usize::MAX,
            dem.cu == cu0 + dem_phieu(van_ban@, i as int, 1),
            dem.moi == moi0 + dem_phieu(van_ban@, i as int, 2),
        decreases tu.len() - i,
    {
        proof {
            lemma_dem_phieu_chan(van_ban@, i + 1, 1);
            lemma_dem_phieu_chan(van_ban@, i + 1, 2);
        }
        let p = phieu_cua(tu[i].chu);
        assert(tu@[i as int]@.chu == tu[i as int].chu@);
        if p == 1 {
            dem.cu = dem.cu + 1;
        } else if p == 2 {
            dem.moi = dem.moi + 1;
        }
        i += 1;
    }
}

/// Phép sửa (nếu có) cho một tiếng, theo kiểu chính `kieu_moi`.
pub open spec fn sua_tu(t: crate::tach_tu::TuV, kieu_moi: bool, nhat_quan: bool) -> Option<SuaDoiV> {
    if dang_tu_spec(t.chu) != DangTu::TiengViet {
        None
    } else {
        match tach_spec(t.chu) {
            None => None,
            Some(at) => {
                let theo_kieu = ghep_spec(at, kieu_moi);
                if theo_kieu == t.chu || thuong_cua(theo_kieu) == thuong_cua(t.chu) {
                    None
                } else if ghep_spec(at, !kieu_moi) == t.chu {
                    if !nhat_quan || !co_hai_kieu_spec(at) {
                        None
                    } else {
                        Some(
                            SuaDoiV {
                                dau: t.dau,
                                cuoi: t.cuoi,
                                goc: t.chu,
                                thay_bang: theo_kieu,
                                loai: Loai::KieuDau,
                                do_chac: DoChac::KhaChac,
                                ly_do: if kieu_moi {
                                    "cả hai đều đúng — kéo về kiểu mới của cả sách"@
                                } else {
                                    "cả hai đều đúng — kéo về kiểu cũ của cả sách"@
                                },
                            },
                        )
                    }
                } else {
                    Some(
                        SuaDoiV {
                            dau: t.dau,
                            cuoi: t.cuoi,
                            goc: t.chu,
                            thay_bang: theo_kieu,
                            loai: Loai::DauThanh,
                            do_chac: DoChac::Chac,
                            ly_do: "dấu thanh đặt sai nguyên âm"@,
                        },
                    )
                }
            },
        }
    }
}

/// Các phép sửa dấu thanh cho `n` tiếng đầu của văn bản.
pub open spec fn soat_den(s: Seq<char>, n: int, kieu_moi: bool, nhat_quan: bool) -> Seq<SuaDoiV>
    decreases n,
{
    if n <= 0 {
        seq![]
    } else {
        let truoc = soat_den(s, n - 1, kieu_moi, nhat_quan);
        match sua_tu(tu_cua(s, cat_spec(s)[n - 1]), kieu_moi, nhat_quan) {
            Some(x) => truoc.push(x),
            None => truoc,
        }
    }
}

/// Dò lỗi dấu thanh trong một đoạn.
///
/// `kieu` là kiểu đã đếm được của cả sách. `nhat_quan` bật thì kéo cả phe thiểu
/// số về kiểu chính; tắt thì chỉ sửa lỗi thật và để `hòa`/`hoà` yên. Không bao
/// giờ đổi cách viết hoa.
pub fn soat(van_ban: &str, kieu: Kieu, nhat_quan: bool) -> (r: Vec<SuaDoi>)
    ensures
        r@.map_values(|x: SuaDoi| x@) == soat_den(van_ban@, cat_spec(van_ban@).len() as int, kieu == Kieu::Moi, nhat_quan),
{
    let kieu_moi = kieu == Kieu::Moi;
    let tu = cat(van_ban);
    let mut ra: Vec<SuaDoi> = Vec::new();
    let mut i: usize = 0;
    while i < tu.len()
        invariant
            i <= tu.len(),
            kieu_moi == (kieu == Kieu::Moi),
            tu@.len() == cat_spec(van_ban@).len(),
            forall|q: int| 0 <= q < tu@.len() ==> #[trigger] tu@[q]@ == tu_cua(van_ban@, cat_spec(van_ban@)[q]),
            ra@.map_values(|x: SuaDoi| x@) == soat_den(van_ban@, i as int, kieu_moi, nhat_quan),
        decreases tu.len() - i,
    {
        let t = &tu[i];
        assert(tu@[i as int]@ == t@);
        let ghost truoc = ra@.map_values(|x: SuaDoi| x@);
        match sua_mot_tu(t.chu, t.dau, t.cuoi, kieu_moi, nhat_quan) {
            Some(x) => {
                ra.push(x);
                assert(ra@.map_values(|x: SuaDoi| x@) =~= truoc.push(ra@[truoc.len() as int]@));
            },
            None => {},
        }
        i += 1;
    }
    ra
}


/// Dấu thanh đặt sai thì luôn được sửa, dù chữ đầu có viết hoa hay không: với
/// mọi tiếng Việt tách được mà cách ghép lại theo kiểu chính khác nó, khác cả
/// khi không kể hoa thường, và cũng không phải cách viết theo kiểu kia, có đúng
/// một phép sửa `DauThanh` chắc chắn thay cả tiếng bằng cách ghép lại ấy
/// (`Qúy` → `Quý`, giữ chữ hoa).
pub proof fn lemma_sua_dau_sai_ca_chu_hoa(t: crate::tach_tu::TuV, kieu_moi: bool, nhat_quan: bool)
    requires
        dang_tu_spec(t.chu) == DangTu::TiengViet,
        tach_spec(t.chu) is Some,
        ghep_spec(tach_spec(t.chu)->Some_0, kieu_moi) != t.chu,
        thuong_cua(ghep_spec(tach_spec(t.chu)->Some_0, kieu_moi)) != thuong_cua(t.chu),
        ghep_spec(tach_spec(t.chu)->Some_0, !kieu_moi) != t.chu,
    ensures
        sua_tu(t, kieu_moi, nhat_quan) matches Some(x) && x.dau == t.dau && x.cuoi == t.cuoi && x.goc == t.chu
            && x.thay_bang == ghep_spec(tach_spec(t.chu)->Some_0, kieu_moi) && x.loai == Loai::DauThanh
            && x.do_chac == DoChac::Chac,
{
}

fn sua_mot_tu(chu: &str, dau: usize, cuoi: usize, kieu_moi: bool, nhat_quan: bool) -> (r: Option<SuaDoi>)
    ensures
        match r {
            Some(x) => sua_tu(crate::tach_tu::TuV { chu: chu@, dau: dau as nat, cuoi: cuoi as nat }, kieu_moi, nhat_quan)
                == Some(x@),
            None => sua_tu(crate::tach_tu::TuV { chu: chu@, dau: dau as nat, cuoi: cuoi as nat }, kieu_moi, nhat_quan)
                is None,
        },
{
    if dang_tu(chu) != DangTu::TiengViet {
        return None;
    }
    let v = ky_tu(chu);
    proof {
        lemma_tach_ghep_duoc(chu@);
    }
    let at = match tach_ds(&v) {
        None => return None,
        Some(at) => at,
    };
    let theo_kieu = ghep_lai(&at, kieu_moi);
    if bang_nhau(&theo_kieu, &v) {
        return None;
    }
    if bang_nhau(&chuoi_thuong(&theo_kieu), &chuoi_thuong(&v)) {
        return None;
    }
    let kia = ghep_lai(&at, !kieu_moi);
    let thay = chuoi(&theo_kieu);
    if bang_nhau(&kia, &v) {
        let van = ky_tu(&at.van);
        if !nhat_quan || !co_hai_kieu(&van, at.thanh) {
            return None;
        }
        let ly_do = if kieu_moi {
            "cả hai đều đúng — kéo về kiểu mới của cả sách"
        } else {
            "cả hai đều đúng — kéo về kiểu cũ của cả sách"
        };
        return Some(SuaDoi::moi(dau..cuoi, chu, thay.as_str(), Loai::KieuDau, DoChac::KhaChac, ly_do));
    }
    Some(SuaDoi::moi(dau..cuoi, chu, thay.as_str(), Loai::DauThanh, DoChac::Chac, "dấu thanh đặt sai nguyên âm"))
}

} // verus!
