//! Cả cuốn sách, không có mô hình ngôn ngữ: lượt một đếm trên mọi file nội
//! dung (kiểu đặt dấu, tên riêng, cụm tên riêng, vốn từ), lượt hai soát từng
//! đoạn bằng bộ soát dựng từ những gì đã đếm, tự quyết những chỗ có bằng chứng
//! dứt khoát, rồi vá các đoạn đã sửa trở lại file.
use vstd::prelude::*;
use crate::dau_thanh::{DemKieu, Kieu};
use crate::quet::{doan_hop_le, quet_spec, DoanV};
use crate::sach::{doc_chuoi, doc_chuoi_spec, dsm, Muc, MucV};
use crate::soat::{
    chon_ds, chon_khong_mo_hinh, du_lan, dscx, ghi_nhan_spec, soat_doan_spec, BoSoat, BoSoatV, ChoXetV, TuyChon,
};
use crate::sua::{dsv, SuaDoiV};
use crate::tu_dien::TuDien;
use crate::xu_ly::{
    bao_hoa, cac_khoang, dem_cac_doan, dsva, ghi_doan, so_vuong, va_file, va_file_spec, va_hop_le, va_hop_le_spec,
    DemSach, DemSachV, KetQuaSach,
};

verus! {

/// Các bảng đếm lúc chưa đọc gì.
pub open spec fn dem_rong() -> DemSachV {
    DemSachV {
        dem_kieu: DemKieu { cu: 0, moi: 0 },
        ten: Map::empty(),
        cum: (Set::empty(), Map::empty()),
        tu: Map::empty(),
        da_doc: 0,
    }
}

/// Lượt một trên các file `cs[..n]`: file không đọc được thành chữ thì bỏ qua;
/// `None` khi tổng số ký tự đọc vượt giới hạn.
pub open spec fn dem_sach_den(
    m: Seq<MucV>,
    cs: Seq<usize>,
    n: int,
    am: Set<Seq<char>>,
    ghep: Set<Seq<char>>,
) -> Option<DemSachV>
    decreases n,
{
    if n <= 0 {
        Some(dem_rong())
    } else {
        match dem_sach_den(m, cs, n - 1, am, ghep) {
            None => None,
            Some(t) => match doc_chuoi_spec(m[cs[n - 1] as int].noi_dung) {
                None => Some(t),
                Some(f) => dem_cac_doan(t, quet_spec(f), quet_spec(f).len() as int, am, ghep),
            },
        }
    }
}

/// Bộ soát của lượt hai, dựng từ tuỳ chọn, các bảng tra và những gì lượt một đếm được.
pub open spec fn bo_cua(
    tc: TuyChon,
    v: DemSachV,
    dn: (Seq<crate::de_nham::MucV>, Seq<crate::de_nham::MucV>),
    am: Set<Seq<char>>,
    ghep: Set<Seq<char>>,
    typo: Map<Seq<char>, Seq<Seq<char>>>,
) -> BoSoatV {
    BoSoatV {
        tuy_chon: tc,
        kieu: if v.dem_kieu.moi > v.dem_kieu.cu { Kieu::Moi } else { Kieu::Cu },
        dn,
        am,
        ghep,
        typo,
        ten: du_lan(v.ten),
        cum: du_lan(v.cum.1),
        dung: du_lan(v.tu),
    }
}

/// Phần tổng của kết quả mà lượt hai cộng dồn.
pub struct TongV {
    pub so_doan: nat,
    pub so_chu: nat,
    pub da_sua: Seq<SuaDoiV>,
    pub chua_sua: Seq<ChoXetV>,
    pub vuong_the: nat,
}

/// Phần tổng của một kết quả.
pub open spec fn tong_cua(kq: KetQuaSach) -> TongV {
    TongV {
        so_doan: kq.so_doan as nat,
        so_chu: kq.so_chu as nat,
        da_sua: dsv(kq.da_sua@),
        chua_sua: dscx(kq.chua_sua@),
        vuong_the: kq.vuong_the as nat,
    }
}

/// Một đoạn ở lượt hai: soát, tự quyết những chỗ dứt khoát, rồi ghi vào tổng và
/// thêm các chỗ vá của đoạn. `None` khi số đếm hay vị trí vượt giới hạn của máy.
pub open spec fn sua_doan_spec(bo: BoSoatV, f: Seq<char>, d: DoanV, st: (TongV, Seq<(nat, nat, Seq<char>)>)) -> Option<
    (TongV, Seq<(nat, nat, Seq<char>)>),
> {
    let (t, va) = st;
    if !doan_hop_le(d) || t.so_doan >= usize::MAX || t.so_chu + d.chu.len() > usize::MAX {
        None
    } else {
        let s = soat_doan_spec(bo, d.chu);
        let (m, g) = ghi_nhan_spec(s.chu, chon_ds(s.cho_xet));
        let con = s.cho_xet.filter(|c: ChoXetV| chon_khong_mo_hinh(c) is None);
        let t1 = TongV { so_doan: t.so_doan + 1, so_chu: t.so_chu + d.chu.len(), ..t };
        if m == d.chu && con.len() == 0 {
            Some((t1, va))
        } else {
            let ks = crate::doi_chieu::khac_spec(d.chu, m);
            Some(
                (
                    TongV {
                        da_sua: t.da_sua + s.da_sua + g,
                        chua_sua: t.chua_sua + con,
                        vuong_the: bao_hoa((t.vuong_the + so_vuong(d, f, ks)) as int),
                        ..t1
                    },
                    va + cac_khoang(d, f, ks),
                ),
            )
        }
    }
}

/// Các đoạn `ds[..n]` của một file ở lượt hai.
pub open spec fn sua_cac_doan(bo: BoSoatV, f: Seq<char>, ds: Seq<DoanV>, n: int, st: (TongV, Seq<(nat, nat, Seq<char>)>)) -> Option<
    (TongV, Seq<(nat, nat, Seq<char>)>),
>
    decreases n,
{
    if n <= 0 {
        Some(st)
    } else {
        match sua_cac_doan(bo, f, ds, n - 1, st) {
            None => None,
            Some(x) => sua_doan_spec(bo, f, ds[n - 1], x),
        }
    }
}

/// Một file ở lượt hai: tổng mới, và nội dung mới nếu file có chỗ được vá. File
/// mà có chỗ vá không nằm trên ranh giới ký tự thì giữ nguyên.
pub open spec fn sua_file_spec(bo: BoSoatV, f: Seq<char>, t: TongV) -> Option<(TongV, Option<Seq<char>>)> {
    let ds = quet_spec(f);
    match sua_cac_doan(bo, f, ds, ds.len() as int, (t, seq![])) {
        None => None,
        Some((t2, va)) => if va.len() == 0 || !va_hop_le_spec(f, va) {
            Some((t2, None))
        } else {
            let (moi, vu) = va_file_spec(f, va);
            Some((TongV { vuong_the: bao_hoa((t2.vuong_the + vu) as int), ..t2 }, Some(moi)))
        },
    }
}

/// Lượt hai trên các file `cs[..n]`: tổng, và (chỉ số mục, nội dung mới) của
/// từng file có thay đổi theo thứ tự.
pub open spec fn sua_sach_den(bo: BoSoatV, m: Seq<MucV>, cs: Seq<usize>, n: int) -> Option<
    (TongV, Seq<(usize, Seq<char>)>),
>
    decreases n,
{
    if n <= 0 {
        Some((TongV { so_doan: 0, so_chu: 0, da_sua: seq![], chua_sua: seq![], vuong_the: 0 }, seq![]))
    } else {
        match sua_sach_den(bo, m, cs, n - 1) {
            None => None,
            Some((t, ra)) => match doc_chuoi_spec(m[cs[n - 1] as int].noi_dung) {
                None => Some((t, ra)),
                Some(f) => match sua_file_spec(bo, f, t) {
                    None => None,
                    Some((t2, None)) => Some((t2, ra)),
                    Some((t2, Some(moi))) => Some((t2, ra.push((cs[n - 1], moi)))),
                },
            },
        }
    }
}

/// Các file đã sửa ở dạng toán học.
pub open spec fn dsra(v: Seq<(usize, String)>) -> Seq<(usize, Seq<char>)> {
    v.map_values(|x: (usize, String)| (x.0, x.1@))
}

/// Lượt một trên các file nội dung `chi_so` của `muc`.
fn dem_ca_sach(muc: &Vec<Muc>, chi_so: &Vec<usize>, tu_dien: &TuDien) -> (r: Option<DemSach>)
    requires
        tu_dien.hop_le(),
        forall|k: int| 0 <= k < chi_so@.len() ==> (#[trigger] chi_so@[k]) < muc@.len(),
    ensures
        match r {
            None => dem_sach_den(
                dsm(muc@),
                chi_so@,
                chi_so@.len() as int,
                tu_dien.kho_am_tiet(),
                tu_dien.kho_tu_ghep(),
            ) is None,
            Some(d) => d.hop_le() && dem_sach_den(
                dsm(muc@),
                chi_so@,
                chi_so@.len() as int,
                tu_dien.kho_am_tiet(),
                tu_dien.kho_tu_ghep(),
            ) == Some(d@),
        },
{
    let ghost m = dsm(muc@);
    let ghost am = tu_dien.kho_am_tiet();
    let ghost ghep = tu_dien.kho_tu_ghep();
    let mut dem = DemSach::moi();
    assert(dem@ == dem_rong());
    let mut k: usize = 0;
    while k < chi_so.len()
        invariant
            k <= chi_so@.len(),
            m == dsm(muc@),
            am == tu_dien.kho_am_tiet(),
            ghep == tu_dien.kho_tu_ghep(),
            tu_dien.hop_le(),
            forall|q: int| 0 <= q < chi_so@.len() ==> (#[trigger] chi_so@[q]) < muc@.len(),
            dem.hop_le(),
            dem_sach_den(m, chi_so@, k as int, am, ghep) == Some(dem@),
        decreases chi_so.len() - k,
    {
        let i = chi_so[k];
        assert(chi_so@[k as int] < muc@.len());
        assert(m[i as int] == muc@[i as int]@);
        match doc_chuoi(muc[i].noi_dung.as_slice()) {
            None => {},
            Some(noi_dung) => {
                match dem.them_file(noi_dung.as_str(), tu_dien) {
                    Some(_) => {},
                    None => {
                        proof {
                            lemma_dem_sach_het(m, chi_so@, k as int + 1, chi_so@.len() as int, am, ghep);
                        }
                        return None;
                    },
                }
            },
        }
        k += 1;
    }
    Some(dem)
}

proof fn lemma_dem_sach_het(m: Seq<MucV>, cs: Seq<usize>, i: int, j: int, am: Set<Seq<char>>, ghep: Set<Seq<char>>)
    requires
        0 <= i <= j,
        dem_sach_den(m, cs, i, am, ghep) is None,
    ensures
        dem_sach_den(m, cs, j, am, ghep) is None,
    decreases j - i,
{
    if i < j {
        lemma_dem_sach_het(m, cs, i, j - 1, am, ghep);
    }
}

proof fn lemma_sua_cac_doan_het(bo: BoSoatV, f: Seq<char>, ds: Seq<DoanV>, i: int, j: int, st: (TongV, Seq<(nat, nat, Seq<char>)>))
    requires
        0 <= i <= j,
        sua_cac_doan(bo, f, ds, i, st) is None,
    ensures
        sua_cac_doan(bo, f, ds, j, st) is None,
    decreases j - i,
{
    if i < j {
        lemma_sua_cac_doan_het(bo, f, ds, i, j - 1, st);
    }
}

proof fn lemma_sua_sach_het(bo: BoSoatV, m: Seq<MucV>, cs: Seq<usize>, i: int, j: int)
    requires
        0 <= i <= j,
        sua_sach_den(bo, m, cs, i) is None,
    ensures
        sua_sach_den(bo, m, cs, j) is None,
    decreases j - i,
{
    if i < j {
        lemma_sua_sach_het(bo, m, cs, i, j - 1);
    }
}

/// Lượt hai trên một file: soát, quyết và ghi từng đoạn vào `kq`, rồi vá. Trả
/// `None` khi số đếm hay vị trí vượt giới hạn của máy; `Some(None)` khi file giữ
/// nguyên; `Some(Some(moi))` là nội dung mới.
fn sua_file(bo: &BoSoat, noi_dung: &str, kq: &mut KetQuaSach) -> (r: Option<Option<String>>)
    requires
        bo.hop_le(),
    ensures
        match sua_file_spec(bo@, noi_dung@, tong_cua(*old(kq))) {
            None => r is None,
            Some((t, moi)) => r is Some && tong_cua(*final(kq)) == t && match r->0 {
                Some(x) => moi == Some(x@),
                None => moi is None,
            },
        },
        final(kq).nhan_de == old(kq).nhan_de,
        final(kq).so_file == old(kq).so_file,
        final(kq).kieu_dau == old(kq).kieu_dau,
        final(kq).dem_kieu == old(kq).dem_kieu,
        final(kq).co_mo_hinh == old(kq).co_mo_hinh,
{
    let ghost f = noi_dung@;
    let ghost bv = bo@;
    let doan = crate::quet::quet(noi_dung);
    let ghost ds = quet_spec(f);
    let ghost t0 = tong_cua(*kq);
    let ghost kq0 = *kq;
    let mut va: Vec<(std::ops::Range<usize>, String)> = Vec::new();
    let mut j: usize = 0;
    assert(dsva(va@) =~= Seq::<(nat, nat, Seq<char>)>::empty());
    while j < doan.len()
        invariant
            j <= doan@.len(),
            crate::quet::dsd(doan@) == ds,
            ds == quet_spec(f),
            f == noi_dung@,
            bv == bo@,
            bo.hop_le(),
            kq0 == *old(kq),
            t0 == tong_cua(kq0),
            sua_cac_doan(bv, f, ds, j as int, (t0, seq![])) == Some((tong_cua(*kq), dsva(va@))),
            kq.nhan_de == kq0.nhan_de,
            kq.so_file == kq0.so_file,
            kq.kieu_dau == kq0.kieu_dau,
            kq.dem_kieu == kq0.dem_kieu,
            kq.co_mo_hinh == kq0.co_mo_hinh,
        decreases doan.len() - j,
    {
        let d = &doan[j];
        assert(ds[j as int] == d@);
        let ghost truoc = (tong_cua(*kq), dsva(va@));
        let n = crate::chuoi::ky_tu(d.chu.as_str()).len();
        if !d.hop_le() || kq.so_doan == usize::MAX || kq.so_chu > usize::MAX - n {
            proof {
                assert(sua_doan_spec(bv, f, ds[j as int], truoc) is None);
                lemma_sua_cac_doan_het(bv, f, ds, j as int + 1, ds.len() as int, (t0, seq![]));
            }
            return None;
        }
        let mut r = bo.soat(d.chu.as_str());
        let ghost s = soat_doan_spec(bv, d.chu@);
        bo.quyet_khong_mo_hinh(&mut r);
        ghi_doan(kq, d, noi_dung, r, &mut va);
        proof {
            let (m, g) = ghi_nhan_spec(s.chu, chon_ds(s.cho_xet));
            let con = s.cho_xet.filter(|c: ChoXetV| chon_khong_mo_hinh(c) is None);
            assert(dsv(kq.da_sua@) == truoc.0.da_sua + s.da_sua + g || (m == d.chu@ && con.len() == 0));
        }
        assert(sua_doan_spec(bv, f, ds[j as int], truoc) == Some((tong_cua(*kq), dsva(va@))));
        j += 1;
    }
    if va.len() == 0 || !va_hop_le(noi_dung, &va) {
        return Some(None);
    }
    let ghost t2 = tong_cua(*kq);
    let (moi, vuong) = va_file(noi_dung, va);
    kq.vuong_the = kq.vuong_the.saturating_add(vuong);
    assert(tong_cua(*kq) == TongV { vuong_the: bao_hoa(t2.vuong_the + vuong), ..t2 });
    Some(Some(moi))
}

/// Soát cả cuốn sách không có mô hình ngôn ngữ, trên các mục nội dung `chi_so`
/// của `muc`: lượt một đếm, lượt hai soát, quyết những chỗ dứt khoát và vá. Trả
/// kết quả tổng cùng nội dung mới của từng file có thay đổi (kèm chỉ số mục);
/// `None` khi sách vượt giới hạn đếm hay giới hạn của máy. Mục không đọc được
/// thành chữ UTF-8 thì bỏ qua ở cả hai lượt.
pub fn soat_sach(
    muc: &Vec<Muc>,
    chi_so: &Vec<usize>,
    tuy_chon: TuyChon,
    tu_dien: TuDien,
    de_nham: crate::de_nham::Bang,
    typo: crate::typo::Bang,
) -> (r: Option<(KetQuaSach, Vec<(usize, String)>)>)
    requires
        tu_dien.hop_le(),
        typo.hop_le(),
        forall|k: int| 0 <= k < chi_so@.len() ==> (#[trigger] chi_so@[k]) < muc@.len(),
    ensures
        ({
            let m = dsm(muc@);
            let am = tu_dien.kho_am_tiet();
            let ghep = tu_dien.kho_tu_ghep();
            match dem_sach_den(m, chi_so@, chi_so@.len() as int, am, ghep) {
                None => r is None,
                Some(v) => {
                    let bo = bo_cua(
                        tuy_chon,
                        v,
                        (de_nham.ds_luon_sai(), de_nham.ds_tuy_nghia()),
                        am,
                        ghep,
                        typo.muc(),
                    );
                    match sua_sach_den(bo, m, chi_so@, chi_so@.len() as int) {
                        None => r is None,
                        Some((t, ra)) => r matches Some((kq, out)) && {
                            &&& tong_cua(kq) == t
                            &&& dsra(out@) == ra
                            &&& kq.dem_kieu == v.dem_kieu
                            &&& kq.kieu_dau == bo.kieu
                            &&& kq.so_file == chi_so@.len()
                            &&& kq.nhan_de is None
                            &&& !kq.co_mo_hinh
                        },
                    }
                },
            }
        }),
{
    let ghost m = dsm(muc@);
    let dem = match dem_ca_sach(muc, chi_so, &tu_dien) {
        None => return None,
        Some(d) => d,
    };
    let ghost v = dem@;
    let (dem_kieu, ten_rieng, cum, tu_dung) = dem.chot();
    let kieu = dem_kieu.kieu_chinh();
    let ghost dn = (de_nham.ds_luon_sai(), de_nham.ds_tuy_nghia());
    let ghost am = tu_dien.kho_am_tiet();
    let ghost ghep = tu_dien.kho_tu_ghep();
    let ghost ty = typo.muc();
    let bo = BoSoat::moi(tuy_chon, kieu, tu_dien, de_nham, typo).voi_ten_rieng(ten_rieng).voi_cum_ten_rieng(
        cum,
    ).voi_tu_dung(tu_dung);
    let ghost bv = bo_cua(tuy_chon, v, dn, am, ghep, ty);
    assert(bo@ == bv);
    let mut kq = KetQuaSach::default();
    kq.so_file = chi_so.len();
    kq.dem_kieu = dem_kieu;
    kq.kieu_dau = kieu;
    assert(dsv(kq.da_sua@) =~= Seq::<SuaDoiV>::empty());
    assert(dscx(kq.chua_sua@) =~= Seq::<ChoXetV>::empty());
    match sua_sach(&bo, muc, chi_so, &mut kq) {
        None => None,
        Some(ra) => Some((kq, ra)),
    }
}

/// Lượt hai trên các file nội dung `chi_so` của `muc`, cộng dồn vào `kq`.
fn sua_sach(bo: &BoSoat, muc: &Vec<Muc>, chi_so: &Vec<usize>, kq: &mut KetQuaSach) -> (r: Option<Vec<(usize, String)>>)
    requires
        bo.hop_le(),
        forall|k: int| 0 <= k < chi_so@.len() ==> (#[trigger] chi_so@[k]) < muc@.len(),
        tong_cua(*old(kq)) == (TongV { so_doan: 0, so_chu: 0, da_sua: seq![], chua_sua: seq![], vuong_the: 0 }),
    ensures
        match sua_sach_den(bo@, dsm(muc@), chi_so@, chi_so@.len() as int) {
            None => r is None,
            Some((t, ra)) => r matches Some(out) && tong_cua(*final(kq)) == t && dsra(out@) == ra,
        },
        final(kq).nhan_de == old(kq).nhan_de,
        final(kq).so_file == old(kq).so_file,
        final(kq).kieu_dau == old(kq).kieu_dau,
        final(kq).dem_kieu == old(kq).dem_kieu,
        final(kq).co_mo_hinh == old(kq).co_mo_hinh,
{
    let ghost m = dsm(muc@);
    let ghost bv = bo@;
    let ghost kq0 = *kq;
    let mut ra: Vec<(usize, String)> = Vec::new();
    let mut k: usize = 0;
    assert(dsra(ra@) =~= Seq::<(usize, Seq<char>)>::empty());
    while k < chi_so.len()
        invariant
            k <= chi_so@.len(),
            m == dsm(muc@),
            bo.hop_le(),
            bo@ == bv,
            kq0 == *old(kq),
            forall|q: int| 0 <= q < chi_so@.len() ==> (#[trigger] chi_so@[q]) < muc@.len(),
            sua_sach_den(bv, m, chi_so@, k as int) == Some((tong_cua(*kq), dsra(ra@))),
            kq.nhan_de == kq0.nhan_de,
            kq.so_file == kq0.so_file,
            kq.kieu_dau == kq0.kieu_dau,
            kq.dem_kieu == kq0.dem_kieu,
            kq.co_mo_hinh == kq0.co_mo_hinh,
        decreases chi_so.len() - k,
    {
        let i = chi_so[k];
        assert(chi_so@[k as int] < muc@.len());
        assert(m[i as int] == muc@[i as int]@);
        match doc_chuoi(muc[i].noi_dung.as_slice()) {
            None => {},
            Some(noi_dung) => {
                let ghost truoc = dsra(ra@);
                match sua_file(bo, noi_dung.as_str(), kq) {
                    None => {
                        proof {
                            lemma_sua_sach_het(bv, m, chi_so@, k as int + 1, chi_so@.len() as int);
                        }
                        return None;
                    },
                    Some(None) => {},
                    Some(Some(moi)) => {
                        ra.push((i, moi));
                        assert(dsra(ra@) =~= truoc.push((i, moi@)));
                    },
                }
            },
        }
        k += 1;
    }
    Some(ra)
}

} // verus!
