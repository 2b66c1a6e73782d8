//! Bảng băm khoá bằng chữ: từ điển, bảng đếm, tập tên riêng đều dựng trên nó.
//!
//! Khoá là dãy ký tự; mỗi khoá nằm trong đúng một ngăn, chọn theo một hàm băm
//! đa thức cố định. Bảng không bao giờ giữ hai bản của cùng một khoá.
use vstd::prelude::*;
use crate::chuoi::{bang_nhau, ky_tu};

verus! {

/// Số ngăn của bảng.
pub const SO_NGAN: usize = 4096;

/// Mô-đun của hàm băm.
pub const MO_DUN: u64 = 1_000_000_007;

/// Hàm băm đa thức cơ số 31 trên mã các ký tự, lấy dư theo [`MO_DUN`].
pub open spec fn bam(w: Seq<char>) -> nat
    decreases w.len(),
{
    if w.len() == 0 {
        0
    } else {
        ((bam(w.drop_last()) * 31 + (w.last() as u32) as nat) % (MO_DUN as nat)) as nat
    }
}

/// Ngăn chứa khoá `w`.
pub open spec fn ngan(w: Seq<char>) -> int {
    (bam(w) % (SO_NGAN as nat)) as int
}

fn bam_exec(w: &[char]) -> (r: usize)
    ensures
        r as int == ngan(w@),
        r < SO_NGAN,
{
    let mut h: u64 = 0;
    let mut i: usize = 0;
    assert(w@.take(0) =~= Seq::<char>::empty());
    while i < w.len()
        invariant
            i <= w.len(),
            h as nat == bam(w@.take(i as int)),
            h < MO_DUN,
        decreases w.len() - i,
    {
        assert(w@.take(i + 1).drop_last() =~= w@.take(i as int));
        assert(w@.take(i + 1).last() == w@[i as int]);
        h = (h * 31 + (w[i] as u32) as u64) % MO_DUN;
        i += 1;
    }
    assert(w@.take(w.len() as int) =~= w@);
    (h % (SO_NGAN as u64)) as usize
}

/// Bảng từ dãy ký tự sang giá trị.
pub struct BangChu<V> {
    o: Vec<Vec<(Vec<char>, V)>>,
    dem: usize,
    m: Ghost<Map<Seq<char>, V>>,
}

impl<V> View for BangChu<V> {
    type V = Map<Seq<char>, V>;

    closed spec fn view(&self) -> Map<Seq<char>, V> {
        self.m@
    }
}

impl<V> BangChu<V> {
    /// Bất biến của bảng: đúng [`SO_NGAN`] ngăn, khoá nằm đúng ngăn của nó, mỗi
    /// khoá một lần, và ánh xạ toán học khớp với nội dung các ngăn.
    pub closed spec fn hop_le(&self) -> bool {
        &&& self.o@.len() == SO_NGAN
        &&& forall|i: int, j: int|
            0 <= i < SO_NGAN && 0 <= j < self.o@[i]@.len() ==> ngan(#[trigger] self.o@[i]@[j].0@) == i
        &&& forall|i: int, j1: int, j2: int|
            0 <= i < SO_NGAN && 0 <= j1 < j2 < self.o@[i]@.len() ==> #[trigger] self.o@[i]@[j1].0@
                != #[trigger] self.o@[i]@[j2].0@
        &&& forall|k: Seq<char>|
            #[trigger] self.m@.dom().contains(k) <==> exists|j: int|
                0 <= j < self.o@[ngan(k)]@.len() && #[trigger] self.o@[ngan(k)]@[j].0@ == k
        &&& forall|i: int, j: int|
            0 <= i < SO_NGAN && 0 <= j < self.o@[i]@.len() ==> self.m@[#[trigger] self.o@[i]@[j].0@]
                == self.o@[i]@[j].1
        &&& self.m@.dom().finite()
        &&& self.dem == self.m@.dom().len()
    }

    /// Bảng rỗng.
    pub fn new() -> (r: Self)
        ensures
            r.hop_le(),
            r@ == Map::<Seq<char>, V>::empty(),
    {
        let mut o: Vec<Vec<(Vec<char>, V)>> = Vec::new();
        let mut i: usize = 0;
        while i < SO_NGAN
            invariant
                i <= SO_NGAN,
                o@.len() == i,
                forall|q: int| 0 <= q < i ==> (#[trigger] o@[q])@.len() == 0,
            decreases SO_NGAN - i,
        {
            o.push(Vec::new());
            i += 1;
        }
        let r = BangChu { o, dem: 0, m: Ghost(Map::empty()) };
        assert(r.m@.dom() =~= Set::<Seq<char>>::empty());
        r
    }

    /// Vị trí của khoá `k` trong ngăn `h` của nó, nếu có.
    fn tim(&self, h: usize, k: &[char]) -> (r: Option<usize>)
        requires
            self.hop_le(),
            h as int == ngan(k@),
        ensures
            match r {
                Some(j) => j < self.o@[h as int]@.len() && self.o@[h as int]@[j as int].0@ == k@,
                None => !self@.dom().contains(k@),
            },
    {
        let ngan_h = &self.o[h];
        let mut j: usize = 0;
        while j < ngan_h.len()
            invariant
                j <= ngan_h@.len(),
                ngan_h@ == self.o@[h as int]@,
                forall|q: int| 0 <= q < j ==> (#[trigger] ngan_h@[q]).0@ != k@,
            decreases ngan_h.len() - j,
        {
            if bang_nhau(ngan_h[j].0.as_slice(), k) {
                return Some(j);
            }
            j += 1;
        }
        None
    }

    /// Giá trị của khoá `k`, nếu có.
    pub fn lay(&self, k: &[char]) -> (r: Option<&V>)
        requires
            self.hop_le(),
        ensures
            r is Some <==> self@.dom().contains(k@),
            r matches Some(v) ==> *v == self@[k@],
    {
        let h = bam_exec(k);
        match self.tim(h, k) {
            Some(j) => Some(&self.o[h][j].1),
            None => None,
        }
    }

    /// Khoá `k` có trong bảng không.
    pub fn co(&self, k: &[char]) -> (r: bool)
        requires
            self.hop_le(),
        ensures
            r == self@.dom().contains(k@),
    {
        let h = bam_exec(k);
        self.tim(h, k).is_some()
    }

    /// Khoá (dạng chuỗi) có trong bảng không.
    pub fn contains(&self, k: &str) -> (r: bool)
        requires
            self.hop_le(),
        ensures
            r == self@.dom().contains(k@),
    {
        let v = ky_tu(k);
        self.co(v.as_slice())
    }

    /// Số khoá trong bảng.
    pub fn len(&self) -> (r: usize)
        requires
            self.hop_le(),
        ensures
            r == self@.dom().len(),
    {
        self.dem
    }

    /// Bảng không có khoá nào.
    pub fn is_empty(&self) -> (r: bool)
        requires
            self.hop_le(),
        ensures
            r == (self@.dom().len() == 0),
            r == (self@.dom() == Set::<Seq<char>>::empty()),
    {
        proof {
            vstd::set_lib::lemma_set_empty_equivalency_len(self@.dom());
        }
        self.dem == 0
    }

    /// Đặt giá trị `v` cho khoá `k`, thay giá trị cũ nếu đã có.
    pub fn dat(&mut self, k: Vec<char>, v: V)
        requires
            old(self).hop_le(),
            old(self)@.dom().len() < usize::MAX,
        ensures
            final(self).hop_le(),
            final(self)@ == old(self)@.insert(k@, v),
            final(self)@.dom().len() == (if old(self)@.dom().contains(k@) {
                old(self)@.dom().len()
            } else {
                old(self)@.dom().len() + 1
            }),
    {
        let h = bam_exec(k.as_slice());
        let ghost kv = k@;
        let ghost m0 = self.m@;
        match self.tim(h, k.as_slice()) {
            Some(j) => {
                let ghost o0 = self.o@;
                self.o[h].set(j, (k, v));
                self.m = Ghost(m0.insert(kv, v));
                proof {
                    assert(self.m@.dom() =~= m0.dom());
                    assert forall|i: int, jj: int|
                        0 <= i < SO_NGAN && 0 <= jj < self.o@[i]@.len() implies self.m@[
                        #[trigger] self.o@[i]@[jj].0@] == self.o@[i]@[jj].1 by {
                        if i == h && jj != j {
                            assert(o0[i]@[jj].0@ != kv);
                        }
                    }
                    assert forall|kk: Seq<char>| #[trigger] self.m@.dom().contains(kk) <==> exists|jj: int|
                        0 <= jj < self.o@[ngan(kk)]@.len() && #[trigger] self.o@[ngan(kk)]@[jj].0@ == kk by {
                        if m0.dom().contains(kk) {
                            let jj = choose|jj: int|
                                0 <= jj < o0[ngan(kk)]@.len() && #[trigger] o0[ngan(kk)]@[jj].0@ == kk;
                            assert(self.o@[ngan(kk)]@[jj].0@ == kk);
                        }
                        if exists|jj: int| 0 <= jj < self.o@[ngan(kk)]@.len() && #[trigger] self.o@[ngan(kk)]@[jj].0@ == kk {
                            let jj = choose|jj: int|
                                0 <= jj < self.o@[ngan(kk)]@.len() && #[trigger] self.o@[ngan(kk)]@[jj].0@ == kk;
                            if ngan(kk) == h && jj == j {
                                assert(kk == kv);
                            } else {
                                assert(o0[ngan(kk)]@[jj].0@ == kk);
                            }
                        }
                    }
                }
            },
            None => {
                let ghost o0 = self.o@;
                self.o[h].push((k, v));
                self.m = Ghost(m0.insert(kv, v));
                self.dem = self.dem + 1;
                proof {
                    assert(self.m@.dom() =~= m0.dom().insert(kv));
                    assert forall|i: int, jj: int|
                        0 <= i < SO_NGAN && 0 <= jj < self.o@[i]@.len() implies self.m@[
                        #[trigger] self.o@[i]@[jj].0@] == self.o@[i]@[jj].1 by {
                        if i == h && jj < o0[i]@.len() {
                            assert(o0[i]@[jj].0@ != kv);
                        }
                    }
                    assert forall|i: int, j1: int, j2: int|
                        0 <= i < SO_NGAN && 0 <= j1 < j2 < self.o@[i]@.len() implies #[trigger] self.o@[i]@[j1].0@
                            != #[trigger] self.o@[i]@[j2].0@ by {
                        if i == h && j2 == o0[i]@.len() {
                            assert(o0[i]@[j1].0@ != kv);
                        }
                    }
                    assert forall|kk: Seq<char>| #[trigger] self.m@.dom().contains(kk) <==> exists|jj: int|
                        0 <= jj < self.o@[ngan(kk)]@.len() && #[trigger] self.o@[ngan(kk)]@[jj].0@ == kk by {
                        if m0.dom().contains(kk) {
                            let jj = choose|jj: int|
                                0 <= jj < o0[ngan(kk)]@.len() && #[trigger] o0[ngan(kk)]@[jj].0@ == kk;
                            assert(self.o@[ngan(kk)]@[jj].0@ == kk);
                        }
                        if kk == kv {
                            assert(self.o@[h as int]@[o0[h as int]@.len() as int].0@ == kk);
                        }
                        if exists|jj: int| 0 <= jj < self.o@[ngan(kk)]@.len() && #[trigger] self.o@[ngan(kk)]@[jj].0@ == kk {
                            let jj = choose|jj: int|
                                0 <= jj < self.o@[ngan(kk)]@.len() && #[trigger] self.o@[ngan(kk)]@[jj].0@ == kk;
                            if !(ngan(kk) == h && jj == o0[h as int]@.len()) {
                                assert(o0[ngan(kk)]@[jj].0@ == kk);
                            }
                        }
                    }
                }
            },
        }
    }

    /// Mọi khoá của bảng, mỗi khoá đúng một lần (thứ tự theo ngăn).
    pub fn cac_khoa(&self) -> (r: Vec<Vec<char>>)
        requires
            self.hop_le(),
        ensures
            r@.len() == self@.dom().len(),
            forall|a: int, b: int| 0 <= a < b < r@.len() ==> (#[trigger] r@[a])@ != (#[trigger] r@[b])@,
            forall|a: int| 0 <= a < r@.len() ==> self@.dom().contains((#[trigger] r@[a])@),
            forall|k: Seq<char>| #[trigger] self@.dom().contains(k) ==> exists|a: int| 0 <= a < r@.len() && (#[trigger] r@[a])@ == k,
    {
        let mut r: Vec<Vec<char>> = Vec::new();
        let mut i: usize = 0;
        while i < SO_NGAN
            invariant
                self.hop_le(),
                i <= SO_NGAN,
                forall|a: int, b: int| 0 <= a < b < r@.len() ==> (#[trigger] r@[a])@ != (#[trigger] r@[b])@,
                forall|a: int| 0 <= a < r@.len() ==> self@.dom().contains((#[trigger] r@[a])@) && ngan(r@[a]@) < i,
                forall|k: Seq<char>| #[trigger] self@.dom().contains(k) && ngan(k) < i ==> exists|a: int|
                    0 <= a < r@.len() && (#[trigger] r@[a])@ == k,
            decreases SO_NGAN - i,
        {
            let ngan_i = &self.o[i];
            let ghost r0 = r@;
            let mut j: usize = 0;
            while j < ngan_i.len()
                invariant
                    self.hop_le(),
                    i < SO_NGAN,
                    j <= ngan_i@.len(),
                    ngan_i@ == self.o@[i as int]@,
                    r0.len() <= r@.len(),
                    r@.len() == r0.len() + j,
                    forall|a: int| 0 <= a < r0.len() ==> r@[a] == r0[a],
                    forall|a: int| 0 <= a < j ==> r@[r0.len() + a]@ == ngan_i@[a].0@,
                    forall|a: int, b: int| 0 <= a < b < r0.len() ==> (#[trigger] r0[a])@ != (#[trigger] r0[b])@,
                    forall|a: int| 0 <= a < r0.len() ==> self@.dom().contains((#[trigger] r0[a])@) && ngan(r0[a]@) < i,
                decreases ngan_i.len() - j,
            {
                let mut k: Vec<char> = Vec::new();
                let nguon = &ngan_i[j].0;
                let mut t: usize = 0;
                while t < nguon.len()
                    invariant
                        t <= nguon@.len(),
                        k@ == nguon@.take(t as int),
                    decreases nguon.len() - t,
                {
                    k.push(nguon[t]);
                    t += 1;
                    assert(k@ =~= nguon@.take(t as int));
                }
                assert(nguon@.take(nguon@.len() as int) =~= nguon@);
                r.push(k);
                j += 1;
            }
            proof {
                assert forall|a: int| 0 <= a < r@.len() implies self@.dom().contains((#[trigger] r@[a])@) && ngan(
                    r@[a]@,
                ) < i + 1 by {
                    if a >= r0.len() {
                        let q = a - r0.len();
                        assert(r@[r0.len() + q]@ == ngan_i@[q].0@);
                        assert(ngan(self.o@[i as int]@[q].0@) == i);
                        assert(exists|jj: int| 0 <= jj < self.o@[i as int]@.len() && #[trigger] self.o@[i as int]@[jj].0@ == r@[a]@);
                    } else {
                        assert(r@[a] == r0[a]);
                    }
                }
                assert forall|a: int, b: int| 0 <= a < b < r@.len() implies (#[trigger] r@[a])@ != (#[trigger] r@[b])@ by {
                    if b >= r0.len() && a >= r0.len() {
                        assert(r@[r0.len() + (a - r0.len())]@ == ngan_i@[a - r0.len()].0@);
                        assert(r@[r0.len() + (b - r0.len())]@ == ngan_i@[b - r0.len()].0@);
                        assert(self.o@[i as int]@[a - r0.len()].0@ != self.o@[i as int]@[b - r0.len()].0@);
                    } else if b >= r0.len() {
                        assert(r@[r0.len() + (b - r0.len())]@ == ngan_i@[b - r0.len()].0@);
                        assert(ngan(self.o@[i as int]@[b - r0.len()].0@) == i);
                        assert(r@[a] == r0[a]);
                    } else {
                        assert(r@[a] == r0[a]);
                        assert(r@[b] == r0[b]);
                    }
                }
                assert forall|k: Seq<char>| #[trigger] self@.dom().contains(k) && ngan(k) < i + 1 implies exists|a: int|
                    0 <= a < r@.len() && (#[trigger] r@[a])@ == k by {
                    if ngan(k) == i {
                        let jj = choose|jj: int| 0 <= jj < self.o@[ngan(k)]@.len() && #[trigger] self.o@[ngan(k)]@[jj].0@ == k;
                        assert(r@[r0.len() + jj]@ == k);
                    } else {
                        let a = choose|a: int| 0 <= a < r0.len() && (#[trigger] r0[a])@ == k;
                        assert(r@[a] == r0[a]);
                    }
                }
            }
            i += 1;
        }
        proof {
            let ks = r@.map_values(|x: Vec<char>| x@);
            assert forall|a: int, b: int| 0 <= a < ks.len() && 0 <= b < ks.len() && a != b implies ks[a] != ks[b] by {
                assert(ks[a] == r@[a]@);
                assert(ks[b] == r@[b]@);
            }
            assert(ks.no_duplicates());
            assert(ks.to_set() =~= self@.dom()) by {
                assert forall|k: Seq<char>| #[trigger] self@.dom().contains(k) implies ks.to_set().contains(k) by {
                    assert(ngan(k) < SO_NGAN);
                    let a = choose|a: int| 0 <= a < r@.len() && (#[trigger] r@[a])@ == k;
                    assert(ks[a] == k);
                }
                assert forall|k: Seq<char>| #[trigger] ks.to_set().contains(k) implies self@.dom().contains(k) by {
                    let a = choose|a: int| 0 <= a < ks.len() && ks[a] == k;
                    assert(ks[a] == r@[a]@);
                }
            }
            ks.unique_seq_to_set();
        }
        r
    }
}

impl BangChu<usize> {
    /// Tăng số đếm của khoá `k` thêm một (khoá mới thì đếm là một).
    pub fn tang(&mut self, k: Vec<char>)
        requires
            old(self).hop_le(),
            old(self)@.dom().len() < usize::MAX,
            old(self)@.dom().contains(k@) ==> old(self)@[k@] < usize::MAX,
        ensures
            final(self).hop_le(),
            final(self)@ == old(self)@.insert(
                k@,
                if old(self)@.dom().contains(k@) { (old(self)@[k@] + 1) as usize } else { 1usize },
            ),
            final(self)@.dom().len() == (if old(self)@.dom().contains(k@) {
                old(self)@.dom().len()
            } else {
                old(self)@.dom().len() + 1
            }),
    {
        let n: usize = match self.lay(k.as_slice()) {
            Some(x) => *x + 1,
            None => 1,
        };
        self.dat(k, n);
    }
}

} // verus!
