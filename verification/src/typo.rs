//! Bảng typo hay gặp, đếm từ chính những cuốn sách đã soát.
//!
//! Đây là **quan sát trực tiếp**, không phải suy luận: `khôgn` gặp 153 lần trong
//! một bộ truyện và lần nào cũng là `không`. Nên bảng này xếp trên mọi tầng.
//!
//! Mục **nhiều đáp án** được giữ nguyên cả danh sách: `măt` có khi là `mắt`, có
//! khi là `mặt`. Mục ấy không quyết gì, nó chỉ thu hẹp danh sách ứng viên.
//!
//! Mỗi dòng của bảng có dạng `typo => đáp án | đáp án | …`; dòng rỗng và dòng
//! mở đầu bằng `#` bị bỏ.
use vstd::prelude::*;
use crate::bang_chu::BangChu;
use crate::chuoi::{cac_dong, chuoi, dong_tu, ky_tu};
use crate::hoa_thuong::{chuoi_thuong, thuong_cua};
use crate::tach_chuoi::{cat_theo, got, got_exec, manh_tu, tim_chuoi, tim_chuoi_exec};

verus! {

/// Chỉ giữ các mảnh không rỗng.
pub open spec fn bo_rong(ds: Seq<Seq<char>>) -> Seq<Seq<char>> {
    ds.filter(|x: Seq<char>| x.len() > 0)
}

/// Các đáp án ở vế phải của một dòng: cắt ở `|`, gọt từng mảnh, bỏ mảnh rỗng.
pub open spec fn dap_an(phai: Seq<char>) -> Seq<Seq<char>> {
    bo_rong(manh_tu(phai, '|', 0).map_values(|x: Seq<char>| got(x)))
}

/// Đọc một dòng của bảng: (typo viết thường, các đáp án), hoặc `None` khi dòng
/// không mang mục nào.
pub open spec fn doc_dong(dong: Seq<char>) -> Option<(Seq<char>, Seq<Seq<char>>)> {
    let d = got(dong);
    if d.len() == 0 || d[0] == '#' {
        None
    } else {
        match tim_chuoi(d, seq!['=', '>'], 0) {
            None => None,
            Some(k) => {
                let dap = dap_an(d.subrange(k + 2, d.len() as int));
                if dap.len() == 0 {
                    None
                } else {
                    Some((thuong_cua(got(d.subrange(0, k))), dap))
                }
            },
        }
    }
}

/// Bảng dựng từ `n` dòng đầu: dòng sau ghi đè dòng trước cùng khoá.
pub open spec fn bang_den(ds: Seq<Seq<char>>, n: int) -> Map<Seq<char>, Seq<Seq<char>>>
    decreases n,
{
    if n <= 0 {
        Map::empty()
    } else {
        let m = bang_den(ds, n - 1);
        match doc_dong(ds[n - 1]) {
            Some((k, v)) => m.insert(k, v),
            None => m,
        }
    }
}

/// Dãy chuỗi ở dạng toán học.
pub open spec fn dsc(v: Seq<String>) -> Seq<Seq<char>> {
    v.map_values(|s: String| s@)
}

fn doc_dong_exec(dong: &[char]) -> (r: Option<(Vec<char>, Vec<String>)>)
    ensures
        match r {
            Some((k, v)) => doc_dong(dong@) == Some((k@, dsc(v@))),
            None => doc_dong(dong@) is None,
        },
{
    let d = got_exec(dong);
    if d.len() == 0 || d[0] == '#' {
        return None;
    }
    let mui = vec!['=', '>'];
    assert(mui@ =~= seq!['=', '>']);
    let k = match tim_chuoi_exec(d.as_slice(), mui.as_slice()) {
        None => return None,
        Some(k) => k,
    };
    proof {
        crate::tach_chuoi::lemma_tim_chuoi(d@, mui@, 0);
    }
    let phai = crate::chuoi::cat_doan(d.as_slice(), k + 2, d.len());
    let manh = cat_theo(phai.as_slice(), '|');
    let ghost ms = manh@.map_values(|x: Vec<char>| x@);
    let ghost gs = ms.map_values(|x: Seq<char>| got(x));
    let mut dap: Vec<String> = Vec::new();
    let mut i: usize = 0;
    proof {
        reveal(Seq::filter);
        assert(gs.take(0) =~= Seq::<Seq<char>>::empty());
        assert(dsc(dap@) =~= Seq::<Seq<char>>::empty());
    }
    while i < manh.len()
        invariant
            i <= manh@.len(),
            ms == manh@.map_values(|x: Vec<char>| x@),
            gs == ms.map_values(|x: Seq<char>| got(x)),
            dsc(dap@) == bo_rong(gs.take(i as int)),
        decreases manh.len() - i,
    {
        let g = got_exec(manh[i].as_slice());
        assert(gs[i as int] == got(manh@[i as int]@));
        let ghost truoc = dsc(dap@);
        proof {
            reveal(Seq::filter);
            assert(gs.take(i + 1).drop_last() =~= gs.take(i as int));
        }
        if g.len() > 0 {
            dap.push(chuoi(g.as_slice()));
            assert(dsc(dap@) =~= truoc.push(g@));
        }
        i += 1;
    }
    assert(gs.take(gs.len() as int) =~= gs);
    if dap.len() == 0 {
        return None;
    }
    let trai = got_exec(crate::chuoi::cat_doan(d.as_slice(), 0, k).as_slice());
    let khoa = chuoi_thuong(trai.as_slice());
    Some((khoa, dap))
}

/// Bảng typo: typo viết thường → các đáp án đã quan sát, nhiều nhất đứng trước.
pub struct Bang {
    m: BangChu<Vec<String>>,
}

impl Bang {
    /// Bảng ở dạng toán học.
    pub closed spec fn muc(&self) -> Map<Seq<char>, Seq<Seq<char>>> {
        Map::new(|k: Seq<char>| self.m@.dom().contains(k), |k: Seq<char>| dsc(self.m@[k]@))
    }

    /// Bất biến của bảng.
    pub closed spec fn hop_le(&self) -> bool {
        self.m.hop_le()
    }

    /// Nạp bảng từ văn bản.
    pub fn nap(van_ban: &str) -> (r: Bang)
        ensures
            r.hop_le(),
            r.muc() == bang_den(dong_tu(van_ban@, 0), dong_tu(van_ban@, 0).len() as int),
    {
        let dong = cac_dong(van_ban);
        let ghost ds = dong@.map_values(|d: Vec<char>| d@);
        let mut m: BangChu<Vec<String>> = BangChu::new();
        let mut i: usize = 0;
        assert(Map::new(|k: Seq<char>| m@.dom().contains(k), |k: Seq<char>| dsc(m@[k]@)) =~= bang_den(ds, 0));
        while i < dong.len()
            invariant
                i <= dong.len(),
                ds == dong@.map_values(|d: Vec<char>| d@),
                ds == dong_tu(van_ban@, 0),
                m.hop_le(),
                m@.dom().len() <= i,
                Map::new(|k: Seq<char>| m@.dom().contains(k), |k: Seq<char>| dsc(m@[k]@)) == bang_den(ds, i as int),
            decreases dong.len() - i,
        {
            assert(ds[i as int] == dong@[i as int]@);
            let ghost truoc = m@;
            match doc_dong_exec(dong[i].as_slice()) {
                Some((k, v)) => {
                    let ghost kv = k@;
                    let ghost vv = dsc(v@);
                    m.dat(k, v);
                    assert(Map::new(|k: Seq<char>| m@.dom().contains(k), |k: Seq<char>| dsc(m@[k]@)) =~= Map::new(
                        |k: Seq<char>| truoc.dom().contains(k),
                        |k: Seq<char>| dsc(truoc[k]@),
                    ).insert(kv, vv));
                },
                None => {},
            }
            i += 1;
        }
        Bang { m }
    }

    /// Bảng không có mục nào.
    pub fn rong() -> (r: Bang)
        ensures
            r.hop_le(),
            r.muc() == Map::<Seq<char>, Seq<Seq<char>>>::empty(),
    {
        let m: BangChu<Vec<String>> = BangChu::new();
        let r = Bang { m };
        assert(r.muc() =~= Map::<Seq<char>, Seq<Seq<char>>>::empty());
        r
    }

    /// Mọi đáp án đã quan sát được cho một typo, không phân biệt hoa thường.
    ///
    /// `None` nghĩa là bảng chưa từng gặp chữ này — chứ **không** nghĩa là chữ
    /// ấy viết đúng.
    pub fn tra(&self, chu: &str) -> (r: Option<&[String]>)
        requires
            self.hop_le(),
        ensures
            r is Some <==> self.muc().dom().contains(thuong_cua(chu@)),
            r matches Some(x) ==> dsc(x@) == self.muc()[thuong_cua(chu@)],
    {
        let thap = chuoi_thuong(ky_tu(chu).as_slice());
        match self.m.lay(thap.as_slice()) {
            Some(v) => Some(v.as_slice()),
            None => None,
        }
    }

    /// Số mục trong bảng.
    pub fn so_muc(&self) -> (r: usize)
        requires
            self.hop_le(),
        ensures
            r == self.muc().dom().len(),
    {
        assert(self.muc().dom() =~= self.m@.dom());
        self.m.len()
    }
}

} // verus!
