//! Cặp dễ nhầm: hai cách viết đều là tiếng Việt hợp lệ, chỉ một cách đúng.
//!
//! Bộ kiểm cấu tạo âm tiết mù hoàn toàn với lớp lỗi này — `xử dụng` gồm hai
//! tiếng viết đúng chuẩn. Chỉ có bảng cụm từ mới bắt được.
//!
//! Bảng chia hai phần theo **việc có cần hiểu câu hay không**:
//!
//! - `[LUON_SAI]` — dạng sai không phải là từ (`xử dụng => sử dụng`). Tự sửa.
//! - `[TUY_NGHIA]` — cả hai đều là từ (`dành cho | giành cho`). Chỉ đề xuất.
use vstd::prelude::*;
use crate::chuoi::{bang_nhau, bang_vi_tri, cac_dong, cat_doan, chuoi, dong_tu, ky_tu, noi, vt_byte};
use crate::hoa_thuong::{chuoi_thuong, hoa, ky_tu_hoa, la_hoa, hoa_ky_tu, thuong_cua};
use crate::sua::{dsv, DoChac, Loai, SuaDoi, SuaDoiV};
use crate::tach_chuoi::{cat_khoang_trang, cum_chu, got, got_exec, tim_chuoi, tim_chuoi_exec, tim_ky_tu};
use crate::tach_tu::{cat_chi_so, cat_spec};

verus! {

/// Một mục của bảng: cụm sai (các tiếng viết thường) và cách viết đúng.
pub type MucV = (Seq<Seq<char>>, Seq<char>);

/// Nối các tiếng bằng một khoảng trắng.
pub open spec fn noi_cach(ks: Seq<Seq<char>>) -> Seq<char>
    decreases ks.len(),
{
    if ks.len() == 0 {
        seq![]
    } else if ks.len() == 1 {
        ks[0]
    } else {
        noi_cach(ks.drop_last()) + seq![' '] + ks.last()
    }
}

/// Trạng thái khi nạp bảng: hai danh sách mục và đang ở phần nào.
pub struct NapV {
    pub luon_sai: Seq<MucV>,
    pub tuy_nghia: Seq<MucV>,
    pub trong_tuy_nghia: bool,
}

/// Đọc một dòng của bảng, trong trạng thái `st`.
pub open spec fn nap_dong(st: NapV, dong: Seq<char>) -> NapV {
    let d = got(dong);
    if d.len() == 0 || d[0] == '#' {
        st
    } else if d == "[LUON_SAI]"@ {
        NapV { trong_tuy_nghia: false, ..st }
    } else if d == "[TUY_NGHIA]"@ {
        NapV { trong_tuy_nghia: true, ..st }
    } else {
        let tach: Option<(Seq<char>, Seq<char>)> = if st.trong_tuy_nghia {
            let k = tim_ky_tu(d, 0, '|');
            if k < d.len() {
                Some((d.subrange(0, k), d.subrange(k + 1, d.len() as int)))
            } else {
                None
            }
        } else {
            match tim_chuoi(d, seq!['=', '>'], 0) {
                Some(k) => Some((d.subrange(0, k), d.subrange(k + 2, d.len() as int))),
                None => None,
            }
        };
        match tach {
            None => st,
            Some((trai, phai)) => {
                let khoa = cum_chu(got(trai), 0).map_values(|x: Seq<char>| thuong_cua(x));
                let gia_tri = got(phai);
                if khoa.len() == 0 || gia_tri.len() == 0 || noi_cach(khoa) == thuong_cua(gia_tri) {
                    st
                } else if st.trong_tuy_nghia {
                    NapV { tuy_nghia: st.tuy_nghia.push((khoa, gia_tri)), ..st }
                } else {
                    NapV { luon_sai: st.luon_sai.push((khoa, gia_tri)), ..st }
                }
            },
        }
    }
}

/// Trạng thái sau khi đọc `n` dòng đầu.
pub open spec fn nap_den(ds: Seq<Seq<char>>, n: int) -> NapV
    decreases n,
{
    if n <= 0 {
        NapV { luon_sai: seq![], tuy_nghia: seq![], trong_tuy_nghia: false }
    } else {
        nap_dong(nap_den(ds, n - 1), ds[n - 1])
    }
}

/// Chỗ chèn `x` khi sắp cụm dài lên trước: ngay sau phần tử cuối cùng có cụm
/// không ngắn hơn nó — nên các cụm cùng độ dài giữ thứ tự cũ.
pub open spec fn vi_tri_chen(s: Seq<MucV>, n: nat) -> int
    decreases s.len(),
{
    if s.len() == 0 {
        0
    } else if s.last().0.len() < n {
        vi_tri_chen(s.drop_last(), n)
    } else {
        s.len() as int
    }
}

/// Sắp ổn định theo độ dài cụm giảm dần.
pub open spec fn sap_dai(s: Seq<MucV>) -> Seq<MucV>
    decreases s.len(),
{
    if s.len() == 0 {
        s
    } else {
        let t = sap_dai(s.drop_last());
        t.insert(vi_tri_chen(t, s.last().0.len()), s.last())
    }
}

proof fn lemma_vi_tri_chen(s: Seq<MucV>, n: nat)
    ensures
        0 <= vi_tri_chen(s, n) <= s.len(),
    decreases s.len(),
{
    if s.len() > 0 && s.last().0.len() < n {
        lemma_vi_tri_chen(s.drop_last(), n);
    }
}

proof fn lemma_sap_dai_len(s: Seq<MucV>)
    ensures
        sap_dai(s).len() == s.len(),
    decreases s.len(),
{
    if s.len() > 0 {
        lemma_sap_dai_len(s.drop_last());
        lemma_vi_tri_chen(sap_dai(s.drop_last()), s.last().0.len());
    }
}

/// Một mục ở dạng thực thi.
pub type Muc = (Vec<Vec<char>>, Vec<char>);

/// Mục ở dạng toán học.
pub open spec fn muc_v(x: Muc) -> MucV {
    (x.0@.map_values(|k: Vec<char>| k@), x.1@)
}

/// Danh sách mục ở dạng toán học.
pub open spec fn ds_muc(v: Seq<Muc>) -> Seq<MucV> {
    v.map_values(|x: Muc| muc_v(x))
}

fn chep(v: &Vec<char>) -> (r: Vec<char>)
    ensures
        r@ == v@,
{
    cat_doan(v.as_slice(), 0, v.len())
}

fn sap_theo_do_dai(v: Vec<Muc>) -> (r: Vec<Muc>)
    ensures
        ds_muc(r@) == sap_dai(ds_muc(v@)),
{
    let ghost g = ds_muc(v@);
    let mut r: Vec<Muc> = Vec::new();
    let mut v = v;
    let mut nguon: Vec<Muc> = Vec::new();
    // Đảo để lấy lần lượt từ đầu bằng `pop`.
    while v.len() > 0
        invariant
            ds_muc(v@) + ds_muc(nguon@).reverse() == g,
        decreases v.len(),
    {
        let ghost truoc_v = ds_muc(v@);
        let ghost truoc_n = ds_muc(nguon@);
        let x = v.pop().unwrap();
        nguon.push(x);
        assert(ds_muc(v@) =~= truoc_v.drop_last());
        assert(ds_muc(nguon@) =~= truoc_n.push(muc_v(x)));
        assert(ds_muc(nguon@).reverse() =~= seq![muc_v(x)] + truoc_n.reverse());
        assert(truoc_v =~= ds_muc(v@).push(muc_v(x)));
        assert(ds_muc(v@) + ds_muc(nguon@).reverse() =~= truoc_v + truoc_n.reverse());
    }
    assert(ds_muc(nguon@).reverse() =~= g);
    let mut i: usize = 0;
    let tong = nguon.len();
    assert(ds_muc(r@) =~= sap_dai(g.take(0)));
    while nguon.len() > 0
        invariant
            tong == g.len(),
            i + nguon@.len() == tong,
            ds_muc(nguon@).reverse() == g.skip(i as int),
            ds_muc(r@) == sap_dai(g.take(i as int)),
        decreases nguon.len(),
    {
        let ghost truoc_n = ds_muc(nguon@);
        let x = nguon.pop().unwrap();
        assert(truoc_n.reverse()[0] == muc_v(x));
        assert(g.skip(i as int)[0] == g[i as int]);
        let n = x.0.len();
        let mut j = r.len();
        let ghost t = ds_muc(r@);
        proof {
            assert(t.take(t.len() as int) =~= t);
        }
        while j > 0 && r[j - 1].0.len() < n
            invariant
                j <= r@.len(),
                t == ds_muc(r@),
                vi_tri_chen(t, n as nat) == vi_tri_chen(t.take(j as int), n as nat),
            decreases j,
        {
            assert(t.take(j as int).drop_last() =~= t.take(j - 1));
            assert(t.take(j as int).last() == t[j - 1]);
            assert(t[j - 1].0.len() == r@[j - 1].0@.len());
            j -= 1;
        }
        proof {
            if j > 0 {
                assert(t.take(j as int).last() == t[j - 1]);
                assert(t[j - 1].0.len() == r@[j - 1].0@.len());
            }
            assert(t.take(j as int).len() == j);
        }
        r.insert(j, x);
        proof {
            assert(g.take(i + 1).drop_last() =~= g.take(i as int));
            assert(g.take(i + 1).last() == g[i as int]);
            assert(ds_muc(r@) =~= t.insert(j as int, muc_v(x)));
            assert(ds_muc(nguon@).reverse() =~= g.skip(i + 1)) by {
                assert(ds_muc(nguon@) =~= truoc_n.drop_last());
                assert(truoc_n.drop_last().reverse() =~= truoc_n.reverse().skip(1));
                assert(g.skip(i as int).skip(1) =~= g.skip(i + 1));
            }
        }
        i += 1;
    }
    assert(g.take(i as int) =~= g);
    r
}

/// Bảng cặp dễ nhầm.
pub struct Bang {
    luon_sai: Vec<Muc>,
    tuy_nghia: Vec<Muc>,
}

impl Bang {
    /// Phần luôn-sai, đã sắp cụm dài trước.
    pub closed spec fn ds_luon_sai(&self) -> Seq<MucV> {
        ds_muc(self.luon_sai@)
    }

    /// Phần tuỳ-nghĩa, đã sắp cụm dài trước.
    pub closed spec fn ds_tuy_nghia(&self) -> Seq<MucV> {
        ds_muc(self.tuy_nghia@)
    }

    /// Nạp bảng từ văn bản. Cụm dài khớp trước: `thái độ bàng quang` phải thắng
    /// `bàng quang`.
    pub fn nap(van_ban: &str) -> (r: Bang)
        ensures
            r.ds_luon_sai() == sap_dai(nap_den(dong_tu(van_ban@, 0), dong_tu(van_ban@, 0).len() as int).luon_sai),
            r.ds_tuy_nghia() == sap_dai(nap_den(dong_tu(van_ban@, 0), dong_tu(van_ban@, 0).len() as int).tuy_nghia),
    {
        let dong = cac_dong(van_ban);
        let ghost ds = dong@.map_values(|d: Vec<char>| d@);
        let mut luon_sai: Vec<Muc> = Vec::new();
        let mut tuy_nghia: Vec<Muc> = Vec::new();
        let mut trong_tuy_nghia = false;
        let dau_luon = ky_tu("[LUON_SAI]");
        let dau_tuy = ky_tu("[TUY_NGHIA]");
        let mui = vec!['=', '>'];
        assert(mui@ =~= seq!['=', '>']);
        let mut i: usize = 0;
        assert(ds_muc(luon_sai@) =~= Seq::<MucV>::empty());
        assert(ds_muc(tuy_nghia@) =~= Seq::<MucV>::empty());
        while i < dong.len()
            invariant
                i <= dong.len(),
                ds == dong@.map_values(|d: Vec<char>| d@),
                dau_luon@ == "[LUON_SAI]"@,
                dau_tuy@ == "[TUY_NGHIA]"@,
                mui@ == seq!['=', '>'],
                nap_den(ds, i as int) == (NapV {
                    luon_sai: ds_muc(luon_sai@),
                    tuy_nghia: ds_muc(tuy_nghia@),
                    trong_tuy_nghia,
                }),
            decreases dong.len() - i,
        {
            assert(ds[i as int] == dong@[i as int]@);
            let d = got_exec(dong[i].as_slice());
            if d.len() == 0 || d[0] == '#' {
            } else if bang_nhau(d.as_slice(), dau_luon.as_slice()) {
                trong_tuy_nghia = false;
            } else if bang_nhau(d.as_slice(), dau_tuy.as_slice()) {
                trong_tuy_nghia = true;
            } else {
                let mut tach: Option<(Vec<char>, Vec<char>)> = None;
                if trong_tuy_nghia {
                    let mut k: usize = 0;
                    proof {
                        crate::tach_chuoi::lemma_tim_ky_tu(d@, 0, '|');
                    }
                    while k < d.len() && d[k] != '|'
                        invariant
                            k <= d@.len(),
                            tim_ky_tu(d@, 0, '|') == tim_ky_tu(d@, k as int, '|'),
                        decreases d.len() - k,
                    {
                        k += 1;
                    }
                    if k < d.len() {
                        tach = Some((cat_doan(d.as_slice(), 0, k), cat_doan(d.as_slice(), k + 1, d.len())));
                    }
                } else {
                    match tim_chuoi_exec(d.as_slice(), mui.as_slice()) {
                        Some(k) => {
                            proof {
                                crate::tach_chuoi::lemma_tim_chuoi(d@, mui@, 0);
                            }
                            tach = Some((cat_doan(d.as_slice(), 0, k), cat_doan(d.as_slice(), k + 2, d.len())));
                        },
                        None => {},
                    }
                }
                match tach {
                    None => {},
                    Some((trai, phai)) => {
                        let trai_g = got_exec(trai.as_slice());
                        let cum = cat_khoang_trang(trai_g.as_slice());
                        let mut khoa: Vec<Vec<char>> = Vec::new();
                        let mut t: usize = 0;
                        let ghost cs = cum@.map_values(|x: Vec<char>| x@);
                        while t < cum.len()
                            invariant
                                t <= cum@.len(),
                                cs == cum@.map_values(|x: Vec<char>| x@),
                                khoa@.map_values(|k: Vec<char>| k@) == cs.take(t as int).map_values(
                                    |x: Seq<char>| thuong_cua(x),
                                ),
                            decreases cum.len() - t,
                        {
                            let ghost truoc = khoa@.map_values(|k: Vec<char>| k@);
                            let tt = chuoi_thuong(cum[t].as_slice());
                            assert(cs[t as int] == cum@[t as int]@);
                            assert(tt@ == thuong_cua(cs[t as int]));
                            khoa.push(tt);
                            assert(cs.take(t + 1) =~= cs.take(t as int).push(cs[t as int]));
                            assert(khoa@.map_values(|k: Vec<char>| k@) =~= truoc.push(tt@));
                            assert(khoa@.map_values(|k: Vec<char>| k@) =~= cs.take(t + 1).map_values(
                                |x: Seq<char>| thuong_cua(x),
                            ));
                            t += 1;
                        }
                        assert(cs.take(cs.len() as int) =~= cs);
                        let gia_tri = got_exec(phai.as_slice());
                        let ghost kv = khoa@.map_values(|k: Vec<char>| k@);
                        if khoa.len() == 0 || gia_tri.len() == 0 {
                        } else {
                            let noi_khoa = noi_cach_exec(&khoa);
                            let thap = chuoi_thuong(gia_tri.as_slice());
                            if !bang_nhau(noi_khoa.as_slice(), thap.as_slice()) {
                                let ghost x = (kv, gia_tri@);
                                if trong_tuy_nghia {
                                    let ghost truoc = ds_muc(tuy_nghia@);
                                    tuy_nghia.push((khoa, gia_tri));
                                    assert(ds_muc(tuy_nghia@) =~= truoc.push(x));
                                } else {
                                    let ghost truoc = ds_muc(luon_sai@);
                                    luon_sai.push((khoa, gia_tri));
                                    assert(ds_muc(luon_sai@) =~= truoc.push(x));
                                }
                            }
                        }
                    },
                }
            }
            i += 1;
        }
        Bang { luon_sai: sap_theo_do_dai(luon_sai), tuy_nghia: sap_theo_do_dai(tuy_nghia) }
    }

    /// Bảng không có mục nào.
    pub fn rong() -> (r: Bang)
        ensures
            r.ds_luon_sai() == Seq::<MucV>::empty(),
            r.ds_tuy_nghia() == Seq::<MucV>::empty(),
    {
        let r = Bang { luon_sai: Vec::new(), tuy_nghia: Vec::new() };
        assert(r.ds_luon_sai() =~= Seq::<MucV>::empty());
        assert(r.ds_tuy_nghia() =~= Seq::<MucV>::empty());
        r
    }

    /// Số mục của hai phần: (luôn sai, tuỳ nghĩa).
    pub fn so_muc(&self) -> (r: (usize, usize))
        ensures
            r.0 == self.ds_luon_sai().len(),
            r.1 == self.ds_tuy_nghia().len(),
    {
        (self.luon_sai.len(), self.tuy_nghia.len())
    }
}

fn noi_cach_exec(ks: &Vec<Vec<char>>) -> (r: Vec<char>)
    ensures
        r@ == noi_cach(ks@.map_values(|k: Vec<char>| k@)),
{
    let ghost g = ks@.map_values(|k: Vec<char>| k@);
    let mut r: Vec<char> = Vec::new();
    let mut i: usize = 0;
    let cach = vec![' '];
    assert(cach@ =~= seq![' ']);
    assert(g.take(0) =~= Seq::<Seq<char>>::empty());
    while i < ks.len()
        invariant
            i <= ks@.len(),
            g == ks@.map_values(|k: Vec<char>| k@),
            cach@ == seq![' '],
            r@ == noi_cach(g.take(i as int)),
        decreases ks.len() - i,
    {
        assert(g.take(i + 1).drop_last() =~= g.take(i as int));
        assert(g.take(i + 1).last() == ks@[i as int]@);
        if i == 0 {
            r = chep(&ks[i]);
            assert(g.take(1) =~= seq![g[0]]);
        } else {
            r = noi(&noi(&r, &cach), &ks[i]);
        }
        i += 1;
    }
    assert(g.take(g.len() as int) =~= g);
    r
}


/// Tiếng thứ `q` của văn bản, viết thường.
pub open spec fn thap_tai(s: Seq<char>, q: int) -> Seq<char> {
    let k = cat_spec(s)[q];
    thuong_cua(s.subrange(k.0, k.1))
}

/// Cụm `khoa` khớp các tiếng bắt đầu từ tiếng thứ `i`.
pub open spec fn khop_tai(s: Seq<char>, khoa: Seq<Seq<char>>, i: int) -> bool {
    forall|t: int| 0 <= t < khoa.len() ==> #[trigger] thap_tai(s, i + t) == khoa[t]
}

/// Chỉ gồm khoảng trắng thường.
pub open spec fn chi_cach(g: Seq<char>) -> bool {
    forall|q: int| 0 <= q < g.len() ==> g[q] == ' '
}

/// Các tiếng `i..i+n` đứng liền nhau, chỉ cách nhau bằng khoảng trắng.
pub open spec fn lien_tai(s: Seq<char>, i: int, n: int) -> bool {
    forall|k: int| i <= k < i + n - 1 ==> #[trigger] chi_cach(s.subrange(cat_spec(s)[k].1, cat_spec(s)[k + 1].0))
}

/// Chép kiểu viết hoa chữ cái đầu của bản gốc sang bản sửa.
pub open spec fn theo_kieu_hoa(goc: Seq<char>, moi: Seq<char>) -> Seq<char> {
    if goc.len() > 0 && la_hoa(goc[0]) && moi.len() > 0 {
        hoa_ky_tu(moi[0]) + moi.drop_first()
    } else {
        moi
    }
}

/// Lý do ghi cho một phép sửa cặp dễ nhầm.
pub open spec fn ly_do_dn(khoa: Seq<Seq<char>>, dung: Seq<char>, chac: DoChac) -> Seq<char> {
    if chac == DoChac::Chac {
        "`"@ + noi_cach(khoa) + "` không phải là từ"@
    } else {
        "`"@ + noi_cach(khoa) + "` và `"@ + dung + "` khác nghĩa — chọn theo câu"@
    }
}

/// Xét mục (`khoa`, `dung`) tại tiếng thứ `i`: chưa tiếng nào bị dùng, khớp,
/// liền nhau, và bản sửa khác bản gốc thì ghi một phép sửa và đánh dấu các tiếng.
pub open spec fn xet_cho(
    s: Seq<char>,
    khoa: Seq<Seq<char>>,
    dung: Seq<char>,
    chac: DoChac,
    i: int,
    st: (Seq<SuaDoiV>, Seq<bool>),
) -> (Seq<SuaDoiV>, Seq<bool>) {
    let n = khoa.len() as int;
    let ks = cat_spec(s);
    if exists|t: int| 0 <= t < n && #[trigger] st.1[i + t] {
        st
    } else if !khop_tai(s, khoa, i) || !lien_tai(s, i, n) {
        st
    } else {
        let goc = s.subrange(ks[i].0, ks[i + n - 1].1);
        let moi = theo_kieu_hoa(goc, dung);
        if moi == goc {
            st
        } else {
            (
                st.0.push(
                    SuaDoiV {
                        dau: vt_byte(s, ks[i].0),
                        cuoi: vt_byte(s, ks[i + n - 1].1),
                        goc: goc,
                        thay_bang: moi,
                        loai: Loai::DeNham,
                        do_chac: chac,
                        ly_do: ly_do_dn(khoa, dung, chac),
                    },
                ),
                Seq::new(st.1.len(), |q: int| if i <= q < i + n { true } else { st.1[q] }),
            )
        }
    }
}

/// Xét một mục tại mọi vị trí từ tiếng thứ `i`.
pub open spec fn xet_muc(
    s: Seq<char>,
    khoa: Seq<Seq<char>>,
    dung: Seq<char>,
    chac: DoChac,
    i: int,
    st: (Seq<SuaDoiV>, Seq<bool>),
) -> (Seq<SuaDoiV>, Seq<bool>)
    decreases cat_spec(s).len() + 1 - i,
{
    if khoa.len() == 0 || i < 0 || i + khoa.len() > cat_spec(s).len() {
        st
    } else {
        xet_muc(s, khoa, dung, chac, i + 1, xet_cho(s, khoa, dung, chac, i, st))
    }
}

/// Xét lần lượt các mục `bang[j..]`.
pub open spec fn xet_bang(s: Seq<char>, bang: Seq<MucV>, chac: DoChac, j: int, st: (Seq<SuaDoiV>, Seq<bool>)) -> (
    Seq<SuaDoiV>,
    Seq<bool>,
)
    decreases bang.len() - j,
{
    if j < 0 || j >= bang.len() {
        st
    } else {
        xet_bang(s, bang, chac, j + 1, xet_muc(s, bang[j].0, bang[j].1, chac, 0, st))
    }
}

/// Mọi phép sửa cặp dễ nhầm trên văn bản `s`: phần luôn-sai trước (chắc chắn),
/// rồi phần tuỳ-nghĩa (phải hỏi); một tiếng đã thuộc một cụm thì không thuộc
/// cụm nào khác.
pub open spec fn soat_dn(s: Seq<char>, luon_sai: Seq<MucV>, tuy_nghia: Seq<MucV>) -> Seq<SuaDoiV> {
    if cat_spec(s).len() == 0 {
        seq![]
    } else {
        let st0 = (Seq::<SuaDoiV>::empty(), Seq::new(cat_spec(s).len(), |_q: int| false));
        xet_bang(s, tuy_nghia, DoChac::NgoVuc, 0, xet_bang(s, luon_sai, DoChac::Chac, 0, st0)).0
    }
}

/// Bối cảnh của một lượt soát: ký tự, bảng vị trí byte, khoảng của các tiếng
/// và các tiếng viết thường.
pub open spec fn boi_canh(s: Seq<char>, v: Seq<char>, b: Seq<usize>, ks: Seq<(usize, usize)>, thap: Seq<Vec<char>>) -> bool {
    &&& v == s
    &&& b.len() == s.len() + 1
    &&& (forall|k: int| 0 <= k <= s.len() ==> #[trigger] b[k] == vt_byte(s, k))
    &&& ks.len() == cat_spec(s).len()
    &&& (forall|q: int| 0 <= q < ks.len() ==> (#[trigger] ks[q]).0 == cat_spec(s)[q].0 && ks[q].1 == cat_spec(s)[q].1)
    &&& (forall|q: int| 0 <= q < ks.len() ==> 0 <= (#[trigger] ks[q]).0 < ks[q].1 <= s.len())
    &&& (forall|q: int| 0 <= q < ks.len() - 1 ==> (#[trigger] ks[q]).1 < ks[q + 1].0)
    &&& thap.len() == ks.len()
    &&& (forall|q: int| 0 <= q < ks.len() ==> (#[trigger] thap[q])@ == thap_tai(s, q))
}

fn theo_kieu_hoa_exec(goc: &[char], moi: &[char]) -> (r: Vec<char>)
    ensures
        r@ == theo_kieu_hoa(goc@, moi@),
{
    if goc.len() > 0 && hoa(goc[0]) && moi.len() > 0 {
        let dau = ky_tu_hoa(moi[0]);
        let r = noi(&dau, &cat_doan(moi, 1, moi.len()));
        assert(moi@.drop_first() =~= moi@.subrange(1, moi@.len() as int));
        r
    } else {
        cat_doan(moi, 0, moi.len())
    }
}

proof fn lemma_khoang_tang(ks: Seq<(usize, usize)>, a: int, b: int)
    requires
        0 <= a <= b < ks.len(),
        forall|q: int| 0 <= q < ks.len() ==> (#[trigger] ks[q]).0 < ks[q].1,
        forall|q: int| 0 <= q < ks.len() - 1 ==> (#[trigger] ks[q]).1 < ks[q + 1].0,
    ensures
        ks[a].0 < ks[b].1,
    decreases b - a,
{
    if a < b {
        lemma_khoang_tang(ks, a + 1, b);
        assert(ks[a].1 < ks[a + 1].0);
    }
}

fn co_tieng_da_dung(da_dung: &Vec<bool>, i: usize, n: usize) -> (r: bool)
    requires
        i + n <= da_dung.len(),
    ensures
        r == (exists|t: int| 0 <= t < n && #[trigger] da_dung@[i + t]),
{
    let mut t: usize = 0;
    while t < n
        invariant
            t <= n,
            i + n <= da_dung.len(),
            forall|q: int| 0 <= q < t ==> !#[trigger] da_dung@[i + q],
        decreases n - t,
    {
        if da_dung[i + t] {
            return true;
        }
        t += 1;
    }
    false
}

fn khop_exec(thap: &Vec<Vec<char>>, khoa: &Vec<Vec<char>>, i: usize) -> (r: bool)
    requires
        i + khoa.len() <= thap.len(),
    ensures
        r == (forall|t: int| 0 <= t < khoa@.len() ==> #[trigger] thap@[i + t]@ == khoa@[t]@),
{
    let n = khoa.len();
    let mut t: usize = 0;
    while t < n
        invariant
            t <= n,
            n == khoa@.len(),
            i + n <= thap.len(),
            forall|q: int| 0 <= q < t ==> #[trigger] thap@[i + q]@ == khoa@[q]@,
        decreases n - t,
    {
        if !bang_nhau(thap[i + t].as_slice(), khoa[t].as_slice()) {
            return false;
        }
        t += 1;
    }
    true
}

fn chi_cach_exec(v: &Vec<char>, a: usize, e: usize) -> (r: bool)
    requires
        a <= e <= v@.len(),
    ensures
        r == chi_cach(v@.subrange(a as int, e as int)),
{
    let mut p = a;
    while p < e
        invariant
            a <= p <= e <= v@.len(),
            forall|q: int| a <= q < p ==> v@[q] == ' ',
        decreases e - p,
    {
        if v[p] != ' ' {
            assert(v@.subrange(a as int, e as int)[p - a] != ' ');
            return false;
        }
        p += 1;
    }
    true
}

fn lien_exec(v: &Vec<char>, ks: &Vec<(usize, usize)>, i: usize, n: usize) -> (r: bool)
    requires
        n > 0,
        i + n <= ks.len(),
        forall|q: int| 0 <= q < ks@.len() ==> 0 <= (#[trigger] ks@[q]).0 < ks@[q].1 <= v@.len(),
        forall|q: int| 0 <= q < ks@.len() - 1 ==> (#[trigger] ks@[q]).1 < ks@[q + 1].0,
    ensures
        r == (forall|k: int| i <= k < i + n - 1 ==> #[trigger] chi_cach(
            v@.subrange(ks@[k].1 as int, ks@[k + 1].0 as int),
        )),
{
    let mut k = i;
    while k + 1 < i + n
        invariant
            i <= k < i + n,
            i + n <= ks.len(),
            forall|q: int| 0 <= q < ks@.len() ==> 0 <= (#[trigger] ks@[q]).0 < ks@[q].1 <= v@.len(),
            forall|q: int| 0 <= q < ks@.len() - 1 ==> (#[trigger] ks@[q]).1 < ks@[q + 1].0,
            forall|q: int| i <= q < k ==> #[trigger] chi_cach(v@.subrange(ks@[q].1 as int, ks@[q + 1].0 as int)),
        decreases i + n - k,
    {
        if !chi_cach_exec(v, ks[k].1, ks[k + 1].0) {
            return false;
        }
        k += 1;
    }
    true
}

#[verifier::rlimit(40)]
fn xet_cho_exec(
    v: &Vec<char>,
    b: &Vec<usize>,
    ks: &Vec<(usize, usize)>,
    thap: &Vec<Vec<char>>,
    khoa: &Vec<Vec<char>>,
    dung: &Vec<char>,
    chac: DoChac,
    i: usize,
    ra: &mut Vec<SuaDoi>,
    da_dung: &mut Vec<bool>,
)
    requires
        boi_canh(v@, v@, b@, ks@, thap@),
        khoa@.len() > 0,
        i + khoa.len() <= ks.len(),
        old(da_dung)@.len() == ks@.len(),
    ensures
        final(da_dung)@.len() == ks@.len(),
        (dsv(final(ra)@), final(da_dung)@) == xet_cho(
            v@,
            khoa@.map_values(|k: Vec<char>| k@),
            dung@,
            chac,
            i as int,
            (dsv(old(ra)@), old(da_dung)@),
        ),
{
    let ghost s = v@;
    let ghost kv = khoa@.map_values(|k: Vec<char>| k@);
    let n = khoa.len();
    if co_tieng_da_dung(da_dung, i, n) {
        return;
    }
    let khop = khop_exec(thap, khoa, i);
    assert(khop == khop_tai(s, kv, i as int)) by {
        if khop {
            assert forall|t: int| 0 <= t < kv.len() implies #[trigger] thap_tai(s, i + t) == kv[t] by {
                assert(thap@[i + t]@ == khoa@[t]@);
            }
        } else {
            let t = choose|t: int| 0 <= t < khoa@.len() && !(#[trigger] thap@[i + t]@ == khoa@[t]@);
            assert(thap_tai(s, i + t) != kv[t]);
        }
    }
    if !khop {
        return;
    }
    let lien = lien_exec(v, ks, i, n);
    assert(lien == lien_tai(s, i as int, n as int)) by {
        if lien {
            assert forall|k: int| i <= k < i + n - 1 implies #[trigger] chi_cach(
                s.subrange(cat_spec(s)[k].1, cat_spec(s)[k + 1].0),
            ) by {
                assert(chi_cach(v@.subrange(ks@[k].1 as int, ks@[k + 1].0 as int)));
            }
        } else {
            let k = choose|k: int| i <= k < i + n - 1 && !#[trigger] chi_cach(
                v@.subrange(ks@[k].1 as int, ks@[k + 1].0 as int),
            );
            assert(!chi_cach(s.subrange(cat_spec(s)[k].1, cat_spec(s)[k + 1].0)));
        }
    }
    if !lien {
        return;
    }
    let dau = ks[i].0;
    let cuoi = ks[i + n - 1].1;
    proof {
        lemma_khoang_tang(ks@, i as int, i + n - 1);
    }
    let goc = cat_doan(v.as_slice(), dau, cuoi);
    let moi = theo_kieu_hoa_exec(goc.as_slice(), dung.as_slice());
    if bang_nhau(moi.as_slice(), goc.as_slice()) {
        return;
    }
    let mut t: usize = 0;
    let ghost cu = da_dung@;
    while t < n
        invariant
            t <= n,
            i + n <= da_dung.len(),
            da_dung@.len() == cu.len(),
            forall|q: int| 0 <= q < da_dung@.len() ==> #[trigger] da_dung@[q] == (if i <= q < i + t { true } else { cu[q] }),
        decreases n - t,
    {
        da_dung.set(i + t, true);
        t += 1;
    }
    assert(da_dung@ =~= Seq::new(cu.len(), |q: int| if i <= q < i + n { true } else { cu[q] }));
    let dau_nhay = ky_tu("`");
    let khoa_noi = noi_cach_exec(khoa);
    let ly_do = if chac == DoChac::Chac {
        chuoi(noi(&noi(&dau_nhay, &khoa_noi), &ky_tu("` không phải là từ")).as_slice())
    } else {
        let giua = noi(&noi(&noi(&dau_nhay, &khoa_noi), &ky_tu("` và `")), dung);
        chuoi(noi(&giua, &ky_tu("` khác nghĩa — chọn theo câu")).as_slice())
    };
    let goc_s = chuoi(goc.as_slice());
    let moi_s = chuoi(moi.as_slice());
    let ghost truoc = dsv(ra@);
    ra.push(SuaDoi::moi(b[dau]..b[cuoi], goc_s.as_str(), moi_s.as_str(), Loai::DeNham, chac, ly_do.as_str()));
    assert(dsv(ra@) =~= truoc.push(ra@[truoc.len() as int]@));
}

impl Bang {
    /// Dò một đoạn: trả cả phép sửa chắc chắn (`Chac`, từ phần luôn-sai) lẫn đề
    /// xuất phải hỏi mô hình (`NgoVuc`, từ phần tuỳ-nghĩa).
    pub fn soat(&self, van_ban: &str) -> (r: Vec<SuaDoi>)
        ensures
            dsv(r@) == soat_dn(van_ban@, self.ds_luon_sai(), self.ds_tuy_nghia()),
    {
        let v = ky_tu(van_ban);
        let b = bang_vi_tri(van_ban);
        let ks = cat_chi_so(v.as_slice());
        proof {
            crate::tach_tu::lemma_cat_tang(v@);
        }
        if ks.len() == 0 {
            let r: Vec<SuaDoi> = Vec::new();
            assert(dsv(r@) =~= Seq::<SuaDoiV>::empty());
            return r;
        }
        let mut thap: Vec<Vec<char>> = Vec::new();
        let mut q: usize = 0;
        while q < ks.len()
            invariant
                q <= ks@.len(),
                v@ == van_ban@,
                ks@.len() == cat_spec(v@).len(),
                forall|p: int| 0 <= p < ks@.len() ==> (#[trigger] ks@[p]).0 == cat_spec(v@)[p].0 && ks@[p].1
                    == cat_spec(v@)[p].1,
                forall|p: int| 0 <= p < ks@.len() ==> 0 <= (#[trigger] ks@[p]).0 < ks@[p].1 <= v@.len(),
                thap@.len() == q,
                forall|p: int| 0 <= p < q ==> (#[trigger] thap@[p])@ == thap_tai(v@, p),
            decreases ks.len() - q,
        {
            let tieng = cat_doan(v.as_slice(), ks[q].0, ks[q].1);
            thap.push(chuoi_thuong(tieng.as_slice()));
            q += 1;
        }
        let mut da_dung: Vec<bool> = Vec::new();
        let mut q: usize = 0;
        while q < ks.len()
            invariant
                q <= ks@.len(),
                da_dung@ =~= Seq::new(q as nat, |_p: int| false),
            decreases ks.len() - q,
        {
            da_dung.push(false);
            q += 1;
        }
        let mut ra: Vec<SuaDoi> = Vec::new();
        let ghost st0 = (Seq::<SuaDoiV>::empty(), Seq::new(cat_spec(v@).len(), |_q: int| false));
        assert(dsv(ra@) =~= Seq::<SuaDoiV>::empty());
        assert(boi_canh(v@, v@, b@, ks@, thap@));
        xet_bang_exec(&v, &b, &ks, &thap, &self.luon_sai, DoChac::Chac, &mut ra, &mut da_dung);
        xet_bang_exec(&v, &b, &ks, &thap, &self.tuy_nghia, DoChac::NgoVuc, &mut ra, &mut da_dung);
        ra
    }
}

fn xet_bang_exec(
    v: &Vec<char>,
    b: &Vec<usize>,
    ks: &Vec<(usize, usize)>,
    thap: &Vec<Vec<char>>,
    bang: &Vec<Muc>,
    chac: DoChac,
    ra: &mut Vec<SuaDoi>,
    da_dung: &mut Vec<bool>,
)
    requires
        boi_canh(v@, v@, b@, ks@, thap@),
        old(da_dung)@.len() == ks@.len(),
    ensures
        final(da_dung)@.len() == ks@.len(),
        (dsv(final(ra)@), final(da_dung)@) == xet_bang(v@, ds_muc(bang@), chac, 0, (dsv(old(ra)@), old(da_dung)@)),
{
    let ghost s = v@;
    let ghost bv = ds_muc(bang@);
    let ghost st0 = (dsv(ra@), da_dung@);
    let mut j: usize = 0;
    while j < bang.len()
        invariant
            j <= bang@.len(),
            bv == ds_muc(bang@),
            boi_canh(s, v@, b@, ks@, thap@),
            da_dung@.len() == ks@.len(),
            xet_bang(s, bv, chac, 0, st0) == xet_bang(s, bv, chac, j as int, (dsv(ra@), da_dung@)),
        decreases bang.len() - j,
    {
        let khoa = &bang[j].0;
        let dung = &bang[j].1;
        assert(bv[j as int] == muc_v(bang@[j as int]));
        let ghost kv = khoa@.map_values(|k: Vec<char>| k@);
        let ghost m0 = (dsv(ra@), da_dung@);
        let n = khoa.len();
        if n > 0 {
            let mut i: usize = 0;
            while n <= ks.len() && i <= ks.len() - n
                invariant
                    n == khoa@.len(),
                    n > 0,
                    i <= ks@.len(),
                    kv == khoa@.map_values(|k: Vec<char>| k@),
                    boi_canh(s, v@, b@, ks@, thap@),
                    da_dung@.len() == ks@.len(),
                    xet_muc(s, kv, dung@, chac, 0, m0) == xet_muc(s, kv, dung@, chac, i as int, (dsv(ra@), da_dung@)),
                decreases ks.len() + 1 - i,
            {
                xet_cho_exec(v, b, ks, thap, khoa, dung, chac, i, ra, da_dung);
                i += 1;
            }
        }
        j += 1;
    }
}

} // verus!
