//! Từ điển tiếng Việt: kho âm tiết có thật và kho từ ghép.
//!
//! [`crate::am_tiet`] kiểm bằng **cấu tạo**: âm đầu + vần + thanh. Cách ấy có
//! một điểm mù — từ mượn viết theo âm Việt (`bêtông`, `micrô`, `rađa`) mang
//! hình dạng ngoài hệ thống ngữ âm. Nên thứ tự là: có trong từ điển thì thôi,
//! không có thì mới hỏi bảng vần.
//!
//! Kho từ ghép chữa lớp lỗi mà mô hình ngôn ngữ chọn sai: `chúng ta` có trong
//! từ điển còn `chừ ta` thì không, và bằng chứng ấy dứt khoát hơn mọi điểm số.
//!
//! Mỗi kho nạp từ một văn bản, mỗi dòng một mục; dòng rỗng bị bỏ.
use vstd::prelude::*;
use crate::bang_chu::BangChu;
use crate::chuoi::{cac_dong, cat_doan, chuoi, dong_tu, ky_tu, noi};
use crate::tach_chuoi::{cat_theo, manh_tu};
use crate::am_tiet::{la_nguyen_am, la_nguyen_am_spec};
use crate::hoa_thuong::{chuoi_thuong, thuong_cua};

verus! {

/// Các mục của một kho nạp từ văn bản `s`: mọi dòng không rỗng.
pub open spec fn muc_cua(s: Seq<char>) -> Set<Seq<char>> {
    Set::new(|l: Seq<char>| dong_tu(s, 0).contains(l) && l.len() > 0)
}

/// Nạp một kho từ văn bản, mỗi dòng không rỗng là một mục.
pub fn nap_kho(van_ban: &str) -> (r: BangChu<()>)
    ensures
        r.hop_le(),
        r@.dom() == muc_cua(van_ban@),
{
    let dong = cac_dong(van_ban);
    let ghost ds = dong@.map_values(|d: Vec<char>| d@);
    let mut r: BangChu<()> = BangChu::new();
    let mut i: usize = 0;
    while i < dong.len()
        invariant
            i <= dong.len(),
            ds == dong@.map_values(|d: Vec<char>| d@),
            ds == dong_tu(van_ban@, 0),
            r.hop_le(),
            r@.dom().len() <= i,
            forall|l: Seq<char>| #[trigger] r@.dom().contains(l) <==> (ds.take(i as int).contains(l) && l.len() > 0),
        decreases dong.len() - i,
    {
        let ghost truoc = r@;
        assert(ds[i as int] == dong@[i as int]@);
        if dong[i].len() > 0 {
            let mut d: Vec<char> = Vec::new();
            let nguon = &dong[i];
            let mut t: usize = 0;
            while t < nguon.len()
                invariant
                    t <= nguon@.len(),
                    d@ == nguon@.take(t as int),
                decreases nguon.len() - t,
            {
                d.push(nguon[t]);
                t += 1;
                assert(d@ =~= nguon@.take(t as int));
            }
            assert(nguon@.take(nguon@.len() as int) =~= nguon@);
            r.dat(d, ());
            proof {
                if truoc.dom().contains(ds[i as int]) {
                    assert(r@.dom() =~= truoc.dom());
                } else {
                    assert(r@.dom() =~= truoc.dom().insert(ds[i as int]));
                }
            }
        }
        proof {
            let t0 = ds.take(i as int);
            let t1 = ds.take(i + 1);
            assert(t1 =~= t0.push(ds[i as int]));
            assert forall|l: Seq<char>| #[trigger] r@.dom().contains(l) <==> (t1.contains(l) && l.len() > 0) by {
                if t1.contains(l) && l.len() > 0 {
                    let q = choose|q: int| 0 <= q < t1.len() && #[trigger] t1[q] == l;
                    if q < i {
                        assert(t0[q] == l);
                    }
                }
                if t0.contains(l) {
                    let q = choose|q: int| 0 <= q < t0.len() && #[trigger] t0[q] == l;
                    assert(t1[q] == l);
                }
                if r@.dom().contains(l) && !truoc.dom().contains(l) {
                    assert(t1[i as int] == l);
                }
            }
        }
        i += 1;
    }
    assert(ds.take(ds.len() as int) =~= ds);
    assert(r@.dom() =~= muc_cua(van_ban@));
    r
}

/// Tiếng `t` có trong kho âm tiết `kho` không, không phân biệt hoa thường.
pub open spec fn co_am_tiet_spec(kho: Set<Seq<char>>, t: Seq<char>) -> bool {
    t.len() > 0 && (kho.contains(t) || kho.contains(thuong_cua(t)))
}


/// `t` cắt sau `k` ký tự, hai mảnh nối bằng một khoảng trắng.
pub open spec fn chia_tai(t: Seq<char>, k: int) -> Seq<char> {
    t.take(k) + seq![' '] + t.skip(k)
}

/// Các cách cắt `t` thành hai tiếng đều có trong kho `kho`, với vết cắt ở
/// `1..n`, theo thứ tự vết cắt.
pub open spec fn tach_den(kho: Set<Seq<char>>, t: Seq<char>, n: int) -> Seq<Seq<char>>
    decreases n,
{
    if n <= 1 {
        seq![]
    } else {
        tach_den(kho, t, n - 1) + (if n - 1 < t.len() && co_am_tiet_spec(kho, t.take(n - 1))
            && co_am_tiet_spec(kho, t.skip(n - 1)) {
            seq![chia_tai(t, n - 1)]
        } else {
            seq![]
        })
    }
}

/// Mọi cách tách một chữ dính, đã viết thường, thành hai tiếng có trong từ điển.
pub open spec fn tach_dinh_spec(kho: Set<Seq<char>>, chu: Seq<char>) -> Seq<Seq<char>> {
    tach_den(kho, thuong_cua(chu), thuong_cua(chu).len() as int)
}

/// Cách chia `thap` (viết thường, các mảnh nối bằng khoảng trắng) là chia
/// **mạnh**: mảnh thứ hai mở đầu bằng phụ âm.
pub open spec fn tach_manh_spec(thap: Seq<char>) -> bool {
    let ms = manh_tu(thap, ' ', 0);
    ms.len() >= 2 && ms[1].len() > 0 && !la_nguyen_am_spec(ms[1][0])
}

/// Mọi tiếng của `chu` (các tiếng nối bằng khoảng trắng) đều có trong kho.
pub open spec fn co_that_spec(kho: Set<Seq<char>>, chu: Seq<char>) -> bool {
    forall|i: int| 0 <= i < manh_tu(chu, ' ', 0).len() ==> co_am_tiet_spec(kho, #[trigger] manh_tu(chu, ' ', 0)[i])
}

/// Cách chia có mạnh không — xem [`tach_manh_spec`].
pub fn tach_manh(thap: &str) -> (r: bool)
    ensures
        r == tach_manh_spec(thap@),
{
    let ms = cat_theo(ky_tu(thap).as_slice(), ' ');
    proof {
        if ms@.len() >= 2 {
            assert(ms@[1]@ == manh_tu(thap@, ' ', 0)[1]);
        }
    }
    ms.len() >= 2 && ms[1].len() > 0 && !la_nguyen_am(ms[1][0])
}

/// Kho âm tiết và kho từ ghép.
pub struct TuDien {
    am_tiet: BangChu<()>,
    tu_ghep: BangChu<()>,
}

/// Cụm hai tiếng viết thường nối bằng một khoảng trắng.
pub open spec fn cum_hai(a: Seq<char>, b: Seq<char>) -> Seq<char> {
    thuong_cua(a) + seq![' '] + b
}

impl TuDien {
    /// Các âm tiết của từ điển.
    pub closed spec fn kho_am_tiet(&self) -> Set<Seq<char>> {
        self.am_tiet@.dom()
    }

    /// Các từ ghép của từ điển.
    pub closed spec fn kho_tu_ghep(&self) -> Set<Seq<char>> {
        self.tu_ghep@.dom()
    }

    /// Bất biến của hai kho.
    pub closed spec fn hop_le(&self) -> bool {
        self.am_tiet.hop_le() && self.tu_ghep.hop_le()
    }

    /// Nạp từ điển từ hai văn bản: kho âm tiết và kho từ ghép, mỗi dòng một mục.
    pub fn nap(am_tiet: &str, tu_ghep: &str) -> (r: TuDien)
        ensures
            r.hop_le(),
            r.kho_am_tiet() == muc_cua(am_tiet@),
            r.kho_tu_ghep() == muc_cua(tu_ghep@),
    {
        TuDien { am_tiet: nap_kho(am_tiet), tu_ghep: nap_kho(tu_ghep) }
    }

    /// Từ điển không có mục nào.
    pub fn rong() -> (r: TuDien)
        ensures
            r.hop_le(),
            r.kho_am_tiet() == Set::<Seq<char>>::empty(),
            r.kho_tu_ghep() == Set::<Seq<char>>::empty(),
    {
        TuDien { am_tiet: BangChu::new(), tu_ghep: BangChu::new() }
    }

    /// Tiếng này có trong từ điển không. Không phân biệt hoa thường: có nguyên
    /// dạng, hoặc có dạng viết thường của nó.
    pub fn co_am_tiet(&self, tieng: &str) -> (r: bool)
        requires
            self.hop_le(),
        ensures
            r == co_am_tiet_spec(self.kho_am_tiet(), tieng@),
    {
        let v = ky_tu(tieng);
        if v.len() == 0 {
            return false;
        }
        if self.am_tiet.co(v.as_slice()) {
            return true;
        }
        let thap = chuoi_thuong(v.as_slice());
        self.am_tiet.co(thap.as_slice())
    }

    /// Cụm tiếng này có phải một từ ghép trong từ điển không. `cum` là các tiếng
    /// đã viết thường, nối bằng đúng một khoảng trắng.
    pub fn co_tu_ghep(&self, cum: &str) -> (r: bool)
        requires
            self.hop_le(),
        ensures
            r == self.kho_tu_ghep().contains(cum@),
    {
        self.tu_ghep.contains(cum)
    }

    /// Ghép `tieng` với hàng xóm hai bên, đếm số từ ghép dựng được (0, 1 hoặc 2).
    pub fn khop_hang_xom(&self, truoc: Option<&str>, tieng: &str, sau: Option<&str>) -> (r: usize)
        requires
            self.hop_le(),
        ensures
            r == (match truoc {
                Some(p) => if self.kho_tu_ghep().contains(cum_hai(p@, thuong_cua(tieng@))) { 1nat } else { 0nat },
                None => 0nat,
            }) + (match sau {
                Some(s) => if self.kho_tu_ghep().contains(cum_hai(tieng@, thuong_cua(s@))) { 1nat } else { 0nat },
                None => 0nat,
            }),
    {
        let t = chuoi_thuong(ky_tu(tieng).as_slice());
        let cach = vec![' '];
        assert(cach@ =~= seq![' ']);
        let mut n: usize = 0;
        if let Some(p) = truoc {
            let trai = chuoi_thuong(ky_tu(p).as_slice());
            let cum = noi(&noi(&trai, &cach), &t);
            if self.tu_ghep.co(cum.as_slice()) {
                n += 1;
            }
        }
        if let Some(s) = sau {
            let phai = chuoi_thuong(ky_tu(s).as_slice());
            let cum = noi(&noi(&t, &cach), &phai);
            if self.tu_ghep.co(cum.as_slice()) {
                n += 1;
            }
        }
        n
    }


    /// Mọi cách tách một chữ dính thành hai tiếng có trong từ điển, theo thứ tự
    /// vết cắt từ trái sang; mỗi cách là hai tiếng viết thường nối bằng một
    /// khoảng trắng.
    pub fn tach_dinh(&self, chu: &str) -> (r: Vec<String>)
        requires
            self.hop_le(),
        ensures
            r@.map_values(|x: String| x@) == tach_dinh_spec(self.kho_am_tiet(), chu@),
    {
        let t = chuoi_thuong(ky_tu(chu).as_slice());
        let ghost kho = self.kho_am_tiet();
        let mut ra: Vec<String> = Vec::new();
        let mut k: usize = 1;
        assert(ra@.map_values(|x: String| x@) =~= tach_den(kho, t@, 1));
        while k < t.len()
            invariant
                1 <= k,
                k <= t@.len() || k == 1,
                t@ == thuong_cua(chu@),
                kho == self.kho_am_tiet(),
                self.hop_le(),
                ra@.map_values(|x: String| x@) == tach_den(kho, t@, k as int),
            decreases t.len() - k,
        {
            let a = chuoi(cat_doan(t.as_slice(), 0, k).as_slice());
            let b = chuoi(cat_doan(t.as_slice(), k, t.len()).as_slice());
            assert(a@ =~= t@.take(k as int));
            assert(b@ =~= t@.skip(k as int));
            let ghost truoc = ra@.map_values(|x: String| x@);
            if self.co_am_tiet(a.as_str()) && self.co_am_tiet(b.as_str()) {
                let cach = vec![' '];
                let m = noi(noi(cat_doan(t.as_slice(), 0, k).as_slice(), cach.as_slice()).as_slice(), cat_doan(t.as_slice(), k, t.len()).as_slice());
                let x = chuoi(m.as_slice());
                assert(x@ =~= chia_tai(t@, k as int));
                ra.push(x);
                assert(ra@.map_values(|x: String| x@) =~= truoc.push(chia_tai(t@, k as int)));
            } else {
                assert(ra@.map_values(|x: String| x@) =~= truoc);
            }
            assert(tach_den(kho, t@, k + 1) == tach_den(kho, t@, k as int) + (if (k as int) < t@.len() && co_am_tiet_spec(kho, t@.take(k as int)) && co_am_tiet_spec(kho, t@.skip(k as int)) { seq![chia_tai(t@, k as int)] } else { seq![] }));
            k += 1;
        }
        proof {
            if t@.len() == 0 {
                assert(tach_den(kho, t@, 0) =~= tach_den(kho, t@, 1));
            }
        }
        ra
    }

    /// Ứng viên có thật: mọi tiếng của nó (các tiếng nối bằng khoảng trắng) đều
    /// có trong từ điển.
    pub fn ung_vien_co_that(&self, chu: &str) -> (r: bool)
        requires
            self.hop_le(),
        ensures
            r == co_that_spec(self.kho_am_tiet(), chu@),
    {
        let ms = cat_theo(ky_tu(chu).as_slice(), ' ');
        let ghost mv = manh_tu(chu@, ' ', 0);
        let mut i: usize = 0;
        while i < ms.len()
            invariant
                i <= ms@.len(),
                ms@.map_values(|d: Vec<char>| d@) == mv,
                mv == manh_tu(chu@, ' ', 0),
                self.hop_le(),
                forall|j: int| 0 <= j < i ==> co_am_tiet_spec(self.kho_am_tiet(), #[trigger] mv[j]),
            decreases ms.len() - i,
        {
            let m = chuoi(ms[i].as_slice());
            assert(m@ == mv[i as int]);
            if !self.co_am_tiet(m.as_str()) {
                return false;
            }
            i += 1;
        }
        true
    }

    /// Số âm tiết trong từ điển.
    pub fn so_am_tiet(&self) -> (r: usize)
        requires
            self.hop_le(),
        ensures
            r == self.kho_am_tiet().len(),
    {
        self.am_tiet.len()
    }

    /// Số từ ghép trong từ điển.
    pub fn so_tu_ghep(&self) -> (r: usize)
        requires
            self.hop_le(),
        ensures
            r == self.kho_tu_ghep().len(),
    {
        self.tu_ghep.len()
    }
}

} // verus!
