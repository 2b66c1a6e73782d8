//! Những gì cộng dồn được khi chạy cả cuốn sách: kết quả tổng, số lỗi đáng kể,
//! và phép vá các đoạn đã sửa trở lại file XHTML.
//!
//! Sách được đi **hai lượt**: lượt một chỉ đếm (kiểu đặt dấu, tên riêng, vốn
//! từ), lượt hai mới sửa. Bản gốc không bao giờ bị ghi đè.
use vstd::prelude::*;
use crate::chuoi::{lemma_bac_cau, nho_hon};
use crate::dau_thanh::{DemKieu, Kieu};
use crate::soat::{chep_chuoi, dscx, ChoXet, KetQua};
use crate::quet::{doan_hop_le, qua_the_spec, quet_spec, Doan, DoanV};
use crate::chuan_hoa::nfc_cua;
use crate::doi_chieu::{dsk, KhacV};
use crate::chuoi::{bang_nhau, ky_tu};
use crate::bang_chu::BangChu;
use crate::tu_dien::TuDien;
use crate::tach_tu::cat_spec;
use crate::dau_thanh::dem_phieu;
use crate::soat::{
    chot_cum_ten_rieng, chot_ten_rieng, chot_tu_dung, dem_den, dem_them, du_lan, gom_cum_ten_rieng, gom_ten_rieng,
    gom_tu_dung, khoa_cum_ca, khoa_ten_rieng_ca, khoa_tu_dung_ca, them_cum, them_cum_den, van_tay_spec, DemCum,
};
use crate::sua::{ap_den, ap_dung, ap_spec, dsv, ranh_gioi, sap_xep, ten_loai, DoChac, Loai, SuaDoi, SuaDoiV};
use crate::chuoi::{bang_vi_tri, lemma_ranh_gioi, tim_vi_tri, vt_byte};
use crate::thuc_the::ma_hoa_spec;
use vstd::utf8::encode_utf8;
use std::ops::Range;

verus! {

/// Kết quả chạy cả cuốn sách.
#[derive(Debug)]
pub struct KetQuaSach {
    pub nhan_de: Option<String>,
    pub so_file: usize,
    pub so_doan: usize,
    pub so_chu: usize,
    /// Mọi phép sửa đã áp, để viết báo cáo.
    pub da_sua: Vec<SuaDoi>,
    /// Những chỗ ngờ mà không đủ căn cứ để tự sửa.
    pub chua_sua: Vec<ChoXet>,
    /// Số chỗ tìm ra nhưng **không vá được** vì nằm vắt qua ranh giới thẻ HTML.
    pub vuong_the: usize,
    pub kieu_dau: Kieu,
    pub dem_kieu: DemKieu,
    pub co_mo_hinh: bool,
}

impl Default for KetQuaSach {
    fn default() -> (r: Self)
        ensures
            r.nhan_de is None,
            r.so_file == 0 && r.so_doan == 0 && r.so_chu == 0 && r.vuong_the == 0,
            r.da_sua@.len() == 0,
            r.chua_sua@.len() == 0,
            r.kieu_dau == Kieu::Cu,
            r.dem_kieu.cu == 0 && r.dem_kieu.moi == 0,
            !r.co_mo_hinh,
    {
        KetQuaSach {
            nhan_de: None,
            so_file: 0,
            so_doan: 0,
            so_chu: 0,
            da_sua: Vec::new(),
            chua_sua: Vec::new(),
            vuong_the: 0,
            kieu_dau: Kieu::Cu,
            dem_kieu: DemKieu { cu: 0, moi: 0 },
            co_mo_hinh: false,
        }
    }
}

/// Các loại lỗi theo thứ tự chữ cái của tên hiển thị.
pub open spec fn cac_loai() -> Seq<Loai> {
    seq![
        Loai::BangMa,
        Loai::DinhChu,
        Loai::DauCau,
        Loai::DauThanh,
        Loai::DeNham,
        Loai::KhoangTrang,
        Loai::KieuDau,
        Loai::AmTietSai,
        Loai::Unicode,
    ]
}

/// Số phép sửa thuộc loại `l`.
pub open spec fn dem_loai(ds: Seq<SuaDoiV>, l: Loai) -> nat {
    ds.filter(|x: SuaDoiV| x.loai == l).len()
}

/// Bảng đếm theo loại: (tên loại, số phép), chỉ những loại có mặt, theo thứ tự
/// chữ cái của tên.
pub open spec fn bang_loai(ds: Seq<SuaDoiV>) -> Seq<(Seq<char>, nat)> {
    cac_loai().filter(|l: Loai| dem_loai(ds, l) > 0).map_values(|l: Loai| (ten_loai(l), dem_loai(ds, l)))
}

/// Loại chỉ dọn hình thức, không phải lỗi chính tả.
pub open spec fn chi_hinh_thuc(l: Loai) -> bool {
    l == Loai::KhoangTrang || l == Loai::Unicode || l == Loai::DauCau || l == Loai::KieuDau
}

fn dem_mot_loai(ds: &Vec<SuaDoi>, l: Loai) -> (n: usize)
    ensures
        n == dem_loai(dsv(ds@), l),
{
    let ghost g = dsv(ds@);
    let mut n: usize = 0;
    let mut i: usize = 0;
    proof {
        reveal(Seq::filter);
        assert(g.take(0) =~= Seq::<SuaDoiV>::empty());
    }
    while i < ds.len()
        invariant
            i <= ds@.len(),
            g == dsv(ds@),
            n == g.take(i as int).filter(|x: SuaDoiV| x.loai == l).len(),
            n <= i,
        decreases ds.len() - i,
    {
        proof {
            reveal(Seq::filter);
            assert(g.take(i + 1).drop_last() =~= g.take(i as int));
            assert(g.take(i + 1).last() == g[i as int]);
        }
        if ds[i].loai == l {
            n += 1;
        }
        i += 1;
    }
    assert(g.take(g.len() as int) =~= g);
    n
}

impl KetQuaSach {
    /// Đếm số phép sửa theo loại, để hiện bảng tổng kết: mỗi loại có mặt một
    /// dòng (tên loại, số phép), theo thứ tự chữ cái của tên.
    pub fn dem_theo_loai(&self) -> (r: Vec<(&'static str, usize)>)
        ensures
            r@.map_values(|p: (&'static str, usize)| (p.0@, p.1 as nat)) == bang_loai(dsv(self.da_sua@)),
    {
        let ghost g = dsv(self.da_sua@);
        let ds = vec![
            Loai::BangMa,
            Loai::DinhChu,
            Loai::DauCau,
            Loai::DauThanh,
            Loai::DeNham,
            Loai::KhoangTrang,
            Loai::KieuDau,
            Loai::AmTietSai,
            Loai::Unicode,
        ];
        assert(ds@ =~= cac_loai());
        let mut r: Vec<(&'static str, usize)> = Vec::new();
        let mut i: usize = 0;
        proof {
            reveal(Seq::filter);
            assert(cac_loai().take(0) =~= Seq::<Loai>::empty());
            assert(r@.map_values(|p: (&'static str, usize)| (p.0@, p.1 as nat)) =~= Seq::<(Seq<char>, nat)>::empty());
        }
        while i < ds.len()
            invariant
                i <= ds@.len(),
                ds@ == cac_loai(),
                g == dsv(self.da_sua@),
                r@.map_values(|p: (&'static str, usize)| (p.0@, p.1 as nat)) == cac_loai().take(i as int).filter(
                    |l: Loai| dem_loai(g, l) > 0,
                ).map_values(|l: Loai| (ten_loai(l), dem_loai(g, l))),
            decreases ds.len() - i,
        {
            let l = ds[i];
            let n = dem_mot_loai(&self.da_sua, l);
            let ghost truoc = r@.map_values(|p: (&'static str, usize)| (p.0@, p.1 as nat));
            proof {
                reveal(Seq::filter);
                assert(cac_loai().take(i + 1).drop_last() =~= cac_loai().take(i as int));
                assert(cac_loai().take(i + 1).last() == l);
            }
            if n > 0 {
                r.push((l.ten(), n));
                assert(r@.map_values(|p: (&'static str, usize)| (p.0@, p.1 as nat)) =~= truoc.push(
                    (ten_loai(l), dem_loai(g, l)),
                ));
            }
            i += 1;
        }
        assert(cac_loai().take(9) =~= cac_loai());
        r
    }
}

/// Số lỗi **thật sự sai chính tả**: bỏ ra ngoài mọi loại chỉ dọn hình thức
/// (khoảng trắng, Unicode, dấu câu) và kiểu đặt dấu — `hoá` với `hóa` đều đúng.
pub fn so_loi_dang_ke(kq: &KetQuaSach) -> (n: usize)
    ensures
        n == dsv(kq.da_sua@).filter(|x: SuaDoiV| !chi_hinh_thuc(x.loai)).len(),
{
    let ghost g = dsv(kq.da_sua@);
    let mut n: usize = 0;
    let mut i: usize = 0;
    proof {
        reveal(Seq::filter);
        assert(g.take(0) =~= Seq::<SuaDoiV>::empty());
    }
    while i < kq.da_sua.len()
        invariant
            i <= kq.da_sua@.len(),
            g == dsv(kq.da_sua@),
            n == g.take(i as int).filter(|x: SuaDoiV| !chi_hinh_thuc(x.loai)).len(),
            n <= i,
        decreases kq.da_sua.len() - i,
    {
        proof {
            reveal(Seq::filter);
            assert(g.take(i + 1).drop_last() =~= g.take(i as int));
            assert(g.take(i + 1).last() == g[i as int]);
        }
        let l = kq.da_sua[i].loai;
        if !(l == Loai::KhoangTrang || l == Loai::Unicode || l == Loai::DauCau || l == Loai::KieuDau) {
            n += 1;
        }
        i += 1;
    }
    assert(g.take(g.len() as int) =~= g);
    n
}

/// Phần tử thứ `k` đứng trước phần tử thứ `k + 1`.
pub open spec fn ke_nhau(s: Seq<Seq<char>>, k: int) -> bool {
    nho_hon(s[k], s[k + 1])
}

proof fn lemma_tang_ca(s: Seq<Seq<char>>, i: int, j: int)
    requires
        forall|k: int| 0 <= k < s.len() - 1 ==> #[trigger] ke_nhau(s, k),
        0 <= i < j < s.len(),
    ensures
        nho_hon(s[i], s[j]),
    decreases j - i,
{
    if j > i + 1 {
        lemma_tang_ca(s, i, j - 1);
        assert(ke_nhau(s, j - 1));
        lemma_bac_cau(s[i], s[j - 1], s[j]);
    } else {
        assert(ke_nhau(s, i));
    }
}

/// Thứ tự của [`cac_loai`] đúng là thứ tự chữ cái (theo mã ký tự) của tên hiển
/// thị, nên bảng đếm theo loại xếp theo tên.
pub proof fn lemma_cac_loai_theo_ten()
    ensures
        forall|i: int, j: int|
            0 <= i < j < cac_loai().len() ==> nho_hon(ten_loai(#[trigger] cac_loai()[i]), ten_loai(#[trigger] cac_loai()[j])),
{
    reveal_strlit("Unicode");
    reveal_strlit("Bảng mã cũ");
    reveal_strlit("Khoảng trắng");
    reveal_strlit("Dấu câu");
    reveal_strlit("Dấu thanh");
    reveal_strlit("Kiểu đặt dấu");
    reveal_strlit("Tiếng sai");
    reveal_strlit("Dễ nhầm");
    reveal_strlit("Dính chữ");
    reveal_with_fuel(nho_hon, 6);
    let s = cac_loai().map_values(|l: Loai| ten_loai(l));
    assert(ke_nhau(s, 0));
    assert(ke_nhau(s, 1));
    assert(ke_nhau(s, 2));
    assert(ke_nhau(s, 3));
    assert(ke_nhau(s, 4));
    assert(ke_nhau(s, 5));
    assert(ke_nhau(s, 6));
    assert(ke_nhau(s, 7));
    assert forall|i: int, j: int| 0 <= i < j < cac_loai().len() implies nho_hon(
        ten_loai(#[trigger] cac_loai()[i]),
        ten_loai(#[trigger] cac_loai()[j]),
    ) by {
        lemma_tang_ca(s, i, j);
    }
}

/// Phần tên file trước đuôi cuối cùng, theo `std::path::Path::file_stem`.
///
/// Ba tên về đường dẫn ở đây theo cách tách đường dẫn của nền đang chạy: trên
/// Windows dấu `\` cũng là dấu ngăn thư mục, trên Unix thì không. Giá trị của
/// chúng vì thế cố định trong mỗi bản dựng nhưng khác nhau giữa hai nền, và
/// không có mệnh đề nào ở đây nói chúng bằng gì.
pub uninterp spec fn than_tep_cua(duong_dan: Seq<char>) -> Option<Seq<char>>;

/// Đuôi file, theo `std::path::Path::extension`.
pub uninterp spec fn duoi_tep_cua(duong_dan: Seq<char>) -> Option<Seq<char>>;

/// Đường dẫn cùng thư mục với tên file thay bằng `ten`, theo `std::path::Path::with_file_name`.
pub uninterp spec fn doi_ten_tep_cua(duong_dan: Seq<char>, ten: Seq<char>) -> Seq<char>;

/// Gọi `std::path::Path::file_stem` trên đường dẫn `duong_dan`; kết quả là hàm
/// của riêng đường dẫn, đặt tên [`than_tep_cua`].
#[verifier::external_body]
fn than_tep(duong_dan: &str) -> (r: Option<String>)
    ensures
        r matches Some(s) ==> than_tep_cua(duong_dan@) == Some(s@),
        r is None ==> than_tep_cua(duong_dan@) is None,
{
    std::path::Path::new(duong_dan).file_stem().map(|s| s.to_string_lossy().to_string())
}

/// Gọi `std::path::Path::extension` trên đường dẫn `duong_dan`; kết quả là hàm
/// của riêng đường dẫn, đặt tên [`duoi_tep_cua`].
#[verifier::external_body]
fn duoi_tep(duong_dan: &str) -> (r: Option<String>)
    ensures
        r matches Some(s) ==> duoi_tep_cua(duong_dan@) == Some(s@),
        r is None ==> duoi_tep_cua(duong_dan@) is None,
{
    std::path::Path::new(duong_dan).extension().map(|s| s.to_string_lossy().to_string())
}

/// Gọi `std::path::Path::with_file_name`; kết quả là hàm của riêng hai đối số,
/// đặt tên [`doi_ten_tep_cua`].
#[verifier::external_body]
fn doi_ten_tep(duong_dan: &str, ten: &str) -> (r: String)
    ensures
        r@ == doi_ten_tep_cua(duong_dan@, ten@),
{
    std::path::Path::new(duong_dan).with_file_name(ten).to_string_lossy().to_string()
}

/// Tên file ra dựng từ phần thân và đuôi của tên file vào: `thân (đã sửa).đuôi`;
/// thiếu thân thì để trống, thiếu đuôi thì dùng `epub`.
pub open spec fn ten_ra_tu(than: Option<Seq<char>>, duoi: Option<Seq<char>>) -> Seq<char> {
    let t = match than { Some(x) => x, None => seq![] };
    let d = match duoi { Some(x) => x, None => "epub"@ };
    t + " (đã sửa)."@ + d
}

/// Dựng tên file ra từ phần thân và đuôi của tên file vào.
pub fn ghep_ten_ra(than: Option<String>, duoi: Option<String>) -> (r: String)
    ensures
        r@ == ten_ra_tu(
            match than { Some(x) => Some(x@), None => None },
            match duoi { Some(x) => Some(x@), None => None },
        ),
{
    let t = match &than {
        Some(x) => crate::chuoi::ky_tu(x.as_str()),
        None => Vec::new(),
    };
    let d = match &duoi {
        Some(x) => crate::chuoi::ky_tu(x.as_str()),
        None => crate::chuoi::ky_tu("epub"),
    };
    let giua = crate::chuoi::ky_tu(" (đã sửa).");
    let a = crate::chuoi::noi(t.as_slice(), giua.as_slice());
    let b = crate::chuoi::noi(a.as_slice(), d.as_slice());
    crate::chuoi::chuoi(b.as_slice())
}

/// Gợi ý tên file ra: `abc.epub` → `abc (đã sửa).epub`, cùng thư mục với file vào.
pub fn ten_ra(dau_vao: &str) -> (r: String)
    ensures
        r@ == doi_ten_tep_cua(dau_vao@, ten_ra_tu(than_tep_cua(dau_vao@), duoi_tep_cua(dau_vao@))),
{
    let than = than_tep(dau_vao);
    let duoi = duoi_tep(dau_vao);
    let ten = ghep_ten_ra(than, duoi);
    doi_ten_tep(dau_vao, ten.as_str())
}


/// Một chỗ vá ở dạng toán học: khoảng byte `[0, 1)` của file và chữ (đã giải mã)
/// thay vào.
pub open spec fn dsva(v: Seq<(Range<usize>, String)>) -> Seq<(nat, nat, Seq<char>)> {
    v.map_values(|x: (Range<usize>, String)| (x.0.start as nat, x.0.end as nat, x.1@))
}

/// Chỗ vá viết thành phép sửa trên file: chữ thay vào được mã hoá lại thực thể.
pub open spec fn phep_va(x: (nat, nat, Seq<char>)) -> SuaDoiV {
    SuaDoiV {
        dau: x.0,
        cuoi: x.1,
        goc: seq![],
        thay_bang: ma_hoa_spec(x.2),
        loai: Loai::Unicode,
        do_chac: DoChac::Chac,
        ly_do: seq![],
    }
}

/// Mọi chỗ vá đều nằm trong file và cắt đúng ranh giới ký tự.
pub open spec fn va_hop_le_spec(f: Seq<char>, ds: Seq<(nat, nat, Seq<char>)>) -> bool {
    forall|q: int|
        0 <= q < ds.len() ==> {
            &&& (#[trigger] ds[q]).0 <= encode_utf8(f).len()
            &&& ds[q].1 <= encode_utf8(f).len()
            &&& ranh_gioi(f, ds[q].0 as int)
            &&& ranh_gioi(f, ds[q].1 as int)
        }
}

/// Kết quả vá: các chỗ vá được sắp ổn định theo `(đầu, cuối)`; chỗ nào bắt đầu
/// trước chỗ vá trước nó kết thúc thì bỏ và được đếm là vướng.
pub open spec fn va_file_spec(f: Seq<char>, ds: Seq<(nat, nat, Seq<char>)>) -> (Seq<char>, nat) {
    let kq = ap_spec(f, sap_xep(ds.map_values(|x: (nat, nat, Seq<char>)| phep_va(x))));
    (kq.0, (ds.len() - kq.1) as nat)
}

proof fn lemma_ap_den_dem(g: Seq<char>, ds: Seq<SuaDoiV>, n: int)
    requires
        0 <= n,
    ensures
        ap_den(g, ds, n).2 <= n,
    decreases n,
{
    if n > 0 {
        lemma_ap_den_dem(g, ds, n - 1);
    }
}

/// Kiểm mọi chỗ vá đều nằm trong file và cắt đúng ranh giới ký tự.
pub fn va_hop_le(noi_dung: &str, va: &Vec<(Range<usize>, String)>) -> (r: bool)
    ensures
        r == va_hop_le_spec(noi_dung@, dsva(va@)),
{
    let b = bang_vi_tri(noi_dung);
    let tong = noi_dung.as_bytes().len();
    let ghost ds = dsva(va@);
    proof {
        assert forall|i: int, j: int| 0 <= i < j < b@.len() implies b@[i] < b@[j] by {
            crate::chuoi::lemma_vt_byte_tang(noi_dung@, i, j);
        }
    }
    let mut i: usize = 0;
    while i < va.len()
        invariant
            i <= va@.len(),
            ds == dsva(va@),
            forall|i: int, j: int| 0 <= i < j < b@.len() ==> b@[i] < b@[j],
            tong == encode_utf8(noi_dung@).len(),
            b@.len() == noi_dung@.len() + 1,
            forall|k: int| 0 <= k <= noi_dung@.len() ==> #[trigger] b@[k] == vt_byte(noi_dung@, k),
            forall|q: int|
                0 <= q < i ==> {
                    &&& (#[trigger] ds[q]).0 <= encode_utf8(noi_dung@).len()
                    &&& ds[q].1 <= encode_utf8(noi_dung@).len()
                    &&& ranh_gioi(noi_dung@, ds[q].0 as int)
                    &&& ranh_gioi(noi_dung@, ds[q].1 as int)
                },
        decreases va.len() - i,
    {
        let dau = va[i].0.start;
        let het = va[i].0.end;
        assert(ds[i as int] == (dau as nat, het as nat, va@[i as int].1@));
        if dau > tong || het > tong {
            return false;
        }
        proof {
            lemma_ranh_gioi(noi_dung@, dau as int);
            lemma_ranh_gioi(noi_dung@, het as int);
        }
        let a = tim_vi_tri(&b, dau);
        let c = tim_vi_tri(&b, het);
        if a.is_none() || c.is_none() {
            proof {
                if ranh_gioi(noi_dung@, dau as int) {
                    let k = choose|k: int| 0 <= k <= noi_dung@.len() && #[trigger] vt_byte(noi_dung@, k) == dau;
                    assert(b@[k] == dau);
                }
                if ranh_gioi(noi_dung@, het as int) {
                    let k = choose|k: int| 0 <= k <= noi_dung@.len() && #[trigger] vt_byte(noi_dung@, k) == het;
                    assert(b@[k] == het);
                }
            }
            return false;
        }
        i += 1;
    }
    true
}

/// Vá các chỗ sửa trở lại nội dung file: mỗi chỗ vá thay một khoảng byte bằng
/// chữ đã mã hoá lại thực thể. Các chỗ vá được sắp ổn định theo `(đầu, cuối)`;
/// chỗ nào chồng lên chỗ trước thì bỏ. Trả về nội dung mới và số chỗ bỏ.
pub fn va_file(noi_dung: &str, va: Vec<(Range<usize>, String)>) -> (r: (String, usize))
    requires
        va_hop_le_spec(noi_dung@, dsva(va@)),
    ensures
        r.0@ == va_file_spec(noi_dung@, dsva(va@)).0,
        r.1 == va_file_spec(noi_dung@, dsva(va@)).1,
{
    let ghost ds = dsva(va@);
    let n = va.len();
    let mut s: Vec<SuaDoi> = Vec::new();
    let mut i: usize = 0;
    while i < va.len()
        invariant
            i <= va@.len(),
            n == va@.len(),
            ds == dsva(va@),
            dsv(s@) == ds.take(i as int).map_values(|x: (nat, nat, Seq<char>)| phep_va(x)),
            s@.len() == i,
        decreases va.len() - i,
    {
        let x = &va[i];
        assert(ds[i as int] == (x.0.start as nat, x.0.end as nat, x.1@));
        let moi = crate::thuc_the::ma_hoa(x.1.as_str());
        let ghost truoc = dsv(s@);
        s.push(SuaDoi::moi(x.0.start..x.0.end, "", moi.as_str(), Loai::Unicode, DoChac::Chac, ""));
        proof {
            reveal_strlit("");
            assert(""@ =~= Seq::<char>::empty());
            let y = s@[i as int]@;
            assert(y.dau == ds[i as int].0);
            assert(y.cuoi == ds[i as int].1);
            assert(y.goc =~= Seq::<char>::empty());
            assert(y.thay_bang == ma_hoa_spec(ds[i as int].2));
            assert(y.ly_do =~= Seq::<char>::empty());
            assert(y == phep_va(ds[i as int]));
            assert(dsv(s@) =~= truoc.push(phep_va(ds[i as int])));
            assert(ds.take(i + 1).map_values(|x: (nat, nat, Seq<char>)| phep_va(x)) =~= ds.take(i as int).map_values(
                |x: (nat, nat, Seq<char>)| phep_va(x),
            ).push(phep_va(ds[i as int])));
        }
        i += 1;
    }
    assert(ds.take(n as int) =~= ds);
    let (moi, da_ap) = ap_dung(noi_dung, &mut s);
    let ghost sx = dsv(s@);
    proof {
        lemma_ap_den_dem(noi_dung@, sx, sx.len() as int);
        crate::sua::lemma_sap_xep_dai(ds.map_values(|x: (nat, nat, Seq<char>)| phep_va(x)));
    }
    (moi, n - da_ap)
}


/// Các chỗ vá ứng với khoảng byte `rs` của file: chữ mới vào khoảng đầu, các
/// khoảng sau xoá rỗng.
pub open spec fn khoang_cua(rs: Seq<(nat, nat)>, moi: Seq<char>) -> Seq<(nat, nat, Seq<char>)> {
    Seq::new(rs.len(), |j: int| (rs[j].0, rs[j].1, if j == 0 { moi } else { seq![] }))
}

/// Các chỗ vá của một đoạn, từ các chỗ khác nhau `ks` giữa chữ cũ và chữ mới.
pub open spec fn cac_khoang(d: DoanV, f: Seq<char>, ks: Seq<KhacV>) -> Seq<(nat, nat, Seq<char>)>
    decreases ks.len(),
{
    if ks.len() == 0 {
        seq![]
    } else {
        let k = ks.last();
        cac_khoang(d, f, ks.drop_last()) + match qua_the_spec(d, f, k.dau, k.cuoi) {
            Some(rs) => khoang_cua(rs, k.moi),
            None => seq![],
        }
    }
}

/// Số chỗ khác nhau không vá được vì vắt qua thứ không phải thẻ định dạng.
pub open spec fn so_vuong(d: DoanV, f: Seq<char>, ks: Seq<KhacV>) -> nat
    decreases ks.len(),
{
    if ks.len() == 0 {
        0
    } else {
        so_vuong(d, f, ks.drop_last()) + if qua_the_spec(d, f, ks.last().dau, ks.last().cuoi) is None {
            1nat
        } else {
            0nat
        }
    }
}

/// Cộng dồn chặn ở trần của `usize`.
pub open spec fn bao_hoa(x: int) -> nat {
    if x > usize::MAX {
        usize::MAX as nat
    } else if x < 0 {
        0
    } else {
        x as nat
    }
}

/// Ghi kết quả soát một đoạn vào kết quả của sách: đếm đoạn và chữ; nếu đoạn có
/// đổi hoặc còn chỗ ngờ thì đối chiếu bản trước/sau để biết vá byte nào của file
/// (chữ mới vào khoảng đầu, các khoảng sau xoá rỗng), đếm chỗ không vá được, và
/// gom các phép sửa cùng chỗ ngờ.
pub fn ghi_doan(kq: &mut KetQuaSach, d: &Doan, noi_dung: &str, r: KetQua, va: &mut Vec<(Range<usize>, String)>)
    requires
        doan_hop_le(d@),
        old(kq).so_doan < usize::MAX,
        old(kq).so_chu + d.chu@.len() <= usize::MAX,
    ensures
        final(kq).so_doan == old(kq).so_doan + 1,
        final(kq).so_chu == old(kq).so_chu + d.chu@.len(),
        final(kq).nhan_de == old(kq).nhan_de,
        final(kq).so_file == old(kq).so_file,
        final(kq).kieu_dau == old(kq).kieu_dau,
        final(kq).dem_kieu == old(kq).dem_kieu,
        final(kq).co_mo_hinh == old(kq).co_mo_hinh,
        r.chu@ == d.chu@ && r.cho_xet@.len() == 0 ==> {
            &&& final(va)@ == old(va)@
            &&& final(kq).vuong_the == old(kq).vuong_the
            &&& final(kq).da_sua@ == old(kq).da_sua@
            &&& final(kq).chua_sua@ == old(kq).chua_sua@
        },
        !(r.chu@ == d.chu@ && r.cho_xet@.len() == 0) ==> ({
            let ks = crate::doi_chieu::khac_spec(d.chu@, r.chu@);
            &&& dsva(final(va)@) == dsva(old(va)@) + cac_khoang(d@, noi_dung@, ks)
            &&& final(kq).vuong_the == bao_hoa(old(kq).vuong_the + so_vuong(d@, noi_dung@, ks))
        }),
        !(r.chu@ == d.chu@ && r.cho_xet@.len() == 0) ==> {
            &&& dsv(final(kq).da_sua@) == dsv(old(kq).da_sua@) + dsv(r.da_sua@)
            &&& dscx(final(kq).chua_sua@) == dscx(old(kq).chua_sua@) + dscx(r.cho_xet@)
        },
{
    let mut r = r;
    let chu_cu = ky_tu(d.chu.as_str());
    kq.so_doan = kq.so_doan + 1;
    kq.so_chu = kq.so_chu + chu_cu.len();
    if bang_nhau(ky_tu(r.chu.as_str()).as_slice(), chu_cu.as_slice()) && r.cho_xet.len() == 0 {
        return;
    }
    let ks = crate::doi_chieu::so(d.chu.as_str(), r.chu.as_str());
    let ghost kv = dsk(ks@);
    let ghost va0 = dsva(va@);
    let ghost vu0 = kq.vuong_the;
    let mut i: usize = 0;
    assert(kv.take(0) =~= Seq::<KhacV>::empty());
    assert(dsva(va@) =~= va0 + Seq::<(nat, nat, Seq<char>)>::empty());
    while i < ks.len()
        invariant
            i <= ks@.len(),
            kv == dsk(ks@),
            doan_hop_le(d@),
            dsva(va@) == va0 + cac_khoang(d@, noi_dung@, kv.take(i as int)),
            kq.vuong_the == bao_hoa(vu0 + so_vuong(d@, noi_dung@, kv.take(i as int))),
            kq.so_doan == old(kq).so_doan + 1,
            kq.so_chu == old(kq).so_chu + d.chu@.len(),
            kq.nhan_de == old(kq).nhan_de,
            kq.so_file == old(kq).so_file,
            kq.kieu_dau == old(kq).kieu_dau,
            kq.dem_kieu == old(kq).dem_kieu,
            kq.co_mo_hinh == old(kq).co_mo_hinh,
            kq.da_sua@ == old(kq).da_sua@,
            kq.chua_sua@ == old(kq).chua_sua@,
        decreases ks.len() - i,
    {
        let k = &ks[i];
        assert(kv[i as int] == k@);
        assert(kv.take(i + 1).drop_last() =~= kv.take(i as int));
        assert(kv.take(i + 1).last() == k@);
        match d.ve_file_qua_the(noi_dung, &k.cu) {
            Some(khoang) => {
                let ghost rs = khoang@.map_values(|x: Range<usize>| (x.start as nat, x.end as nat));
                let ghost truoc = dsva(va@);
                let mut j: usize = 0;
                while j < khoang.len()
                    invariant
                        j <= khoang@.len(),
                        rs == khoang@.map_values(|x: Range<usize>| (x.start as nat, x.end as nat)),
                        dsva(va@) == truoc + khoang_cua(rs, k@.moi).take(j as int),
                    decreases khoang.len() - j,
                {
                    let chu = if j == 0 { chep_chuoi(k.moi.as_str()) } else { String::new() };
                    let ghost t = dsva(va@);
                    va.push((khoang[j].start..khoang[j].end, chu));
                    assert(dsva(va@) =~= t.push(khoang_cua(rs, k@.moi)[j as int]));
                    assert(khoang_cua(rs, k@.moi).take(j + 1) =~= khoang_cua(rs, k@.moi).take(j as int).push(
                        khoang_cua(rs, k@.moi)[j as int],
                    ));
                    j += 1;
                }
                assert(khoang_cua(rs, k@.moi).take(khoang@.len() as int) =~= khoang_cua(rs, k@.moi));
            },
            None => {
                kq.vuong_the = kq.vuong_the.saturating_add(1);
            },
        }
        i += 1;
    }
    assert(kv.take(kv.len() as int) =~= kv);
    let ghost ds0 = dsv(kq.da_sua@);
    let ghost cx0 = dscx(kq.chua_sua@);
    let ghost rd = dsv(r.da_sua@);
    let ghost rc = dscx(r.cho_xet@);
    kq.da_sua.append(&mut r.da_sua);
    kq.chua_sua.append(&mut r.cho_xet);
    assert(dsv(kq.da_sua@) =~= ds0 + rd);
    assert(dscx(kq.chua_sua@) =~= cx0 + rc);
}


/// Bảng đếm `m` nằm trong giới hạn `t`: ít hơn `t` khoá, mỗi số đếm không quá `t + 1`.
pub open spec fn gioi_han(m: Map<Seq<char>, usize>, t: int) -> bool {
    &&& m.dom().finite()
    &&& m.dom().len() <= t
    &&& forall|k: Seq<char>| #[trigger] m.dom().contains(k) ==> m[k] <= t + 1
}

proof fn lemma_dem_den_gioi_han(m: Map<Seq<char>, usize>, ks: Seq<Option<Seq<char>>>, t: int)
    requires
        gioi_han(m, t),
        t + ks.len() + 2 < usize::MAX,
    ensures
        gioi_han(dem_den(m, ks), t + ks.len()),
    decreases ks.len(),
{
    if ks.len() > 0 {
        lemma_dem_den_gioi_han(m, ks.drop_last(), t);
        let a = dem_den(m, ks.drop_last());
        match ks.last() {
            Some(k) => {
                let b = dem_them(a, k);
                assert(b.dom() =~= a.dom().insert(k));
                assert forall|k2: Seq<char>| #[trigger] b.dom().contains(k2) implies b[k2] <= t + ks.len() + 1 by {
                    if k2 != k {
                        assert(a.dom().contains(k2));
                    }
                }
            },
            None => {},
        }
    }
}

proof fn lemma_them_cum_den_gioi_han(st: (Set<u64>, Map<Seq<char>, usize>), ks: Seq<Option<Seq<char>>>, t: int)
    requires
        gioi_han(st.1, t),
        t + ks.len() + 2 < usize::MAX,
    ensures
        gioi_han(them_cum_den(st, ks).1, t + ks.len()),
    decreases ks.len(),
{
    if ks.len() > 0 {
        lemma_them_cum_den_gioi_han(st, ks.drop_last(), t);
        let a = them_cum_den(st, ks.drop_last());
        match ks.last() {
            Some(k) => {
                let b = them_cum(a, k).1;
                if a.1.dom().contains(k) || a.0.contains(van_tay_spec(k)) {
                    assert(b.dom() =~= a.1.dom().insert(k));
                    assert forall|k2: Seq<char>| #[trigger] b.dom().contains(k2) implies b[k2] <= t + ks.len() + 1 by {
                        if k2 != k {
                            assert(a.1.dom().contains(k2));
                        }
                    }
                } else {
                    assert(b == a.1);
                }
            },
            None => {},
        }
    }
}

/// Giới hạn tổng số ký tự đọc được ở lượt một, để mọi số đếm có chỗ.
pub const GIOI_HAN_DOC: usize = usize::MAX / 8;

/// Các bảng đếm của lượt một trên cả sách: phiếu kiểu đặt dấu, ứng viên tên
/// riêng, cặp tiếng viết hoa, vốn từ; kèm tổng số ký tự đã đọc.
pub struct DemSach {
    dem_kieu: DemKieu,
    ten: BangChu<usize>,
    cum: DemCum,
    tu: BangChu<usize>,
    da_doc: usize,
}

impl DemSach {
    /// Phiếu kiểu đặt dấu.
    pub closed spec fn dem_kieu_v(&self) -> DemKieu {
        self.dem_kieu
    }

    /// Bảng đếm ứng viên tên riêng.
    pub closed spec fn ten_v(&self) -> Map<Seq<char>, usize> {
        self.ten@
    }

    /// Bảng đếm cặp tiếng viết hoa: vân tay cặp gặp một lần, cặp gặp từ hai lần.
    pub closed spec fn cum_v(&self) -> (Set<u64>, Map<Seq<char>, usize>) {
        (self.cum.van_tay_mot_lan(), self.cum.hai_lan())
    }

    /// Bảng đếm vốn từ.
    pub closed spec fn tu_v(&self) -> Map<Seq<char>, usize> {
        self.tu@
    }

    /// Tổng số ký tự đã đọc.
    pub closed spec fn da_doc_v(&self) -> nat {
        self.da_doc as nat
    }

    /// Bất biến: các bảng hợp lệ và mọi số đếm nằm trong giới hạn số ký tự đã đọc.
    pub closed spec fn hop_le(&self) -> bool {
        &&& self.ten.hop_le()
        &&& self.cum.hop_le()
        &&& self.tu.hop_le()
        &&& self.da_doc <= GIOI_HAN_DOC
        &&& gioi_han(self.ten@, self.da_doc as int)
        &&& gioi_han(self.cum.hai_lan(), self.da_doc as int)
        &&& gioi_han(self.tu@, self.da_doc as int)
        &&& self.dem_kieu.cu <= self.da_doc
        &&& self.dem_kieu.moi <= self.da_doc
    }

    /// Bảng đếm rỗng.
    pub fn moi() -> (r: DemSach)
        ensures
            r.hop_le(),
            r.dem_kieu_v().cu == 0 && r.dem_kieu_v().moi == 0,
            r.ten_v() == Map::<Seq<char>, usize>::empty(),
            r.cum_v() == (Set::<u64>::empty(), Map::<Seq<char>, usize>::empty()),
            r.tu_v() == Map::<Seq<char>, usize>::empty(),
            r.da_doc_v() == 0,
    {
        let r = DemSach {
            dem_kieu: DemKieu { cu: 0, moi: 0 },
            ten: BangChu::new(),
            cum: DemCum::moi(),
            tu: BangChu::new(),
            da_doc: 0,
        };
        assert(r.ten@.dom() =~= Set::<Seq<char>>::empty());
        assert(r.tu@.dom() =~= Set::<Seq<char>>::empty());
        assert(r.cum.hai_lan().dom() =~= Set::<Seq<char>>::empty());
        r
    }

    /// Đếm một đoạn (đã dựng lại NFC) vào các bảng của lượt một. Trả `false` và
    /// không đếm gì khi tổng số ký tự đã đọc vượt [`GIOI_HAN_DOC`].
    pub fn them_doan(&mut self, chu: &str, tu_dien: &TuDien) -> (ok: bool)
        requires
            old(self).hop_le(),
            tu_dien.hop_le(),
        ensures
            final(self).hop_le(),
            ok == (old(self).da_doc_v() + chu@.len() <= GIOI_HAN_DOC),
            ok ==> {
                let n = cat_spec(chu@).len() as int;
                &&& final(self).dem_kieu_v().cu == old(self).dem_kieu_v().cu + dem_phieu(chu@, n, 1)
                &&& final(self).dem_kieu_v().moi == old(self).dem_kieu_v().moi + dem_phieu(chu@, n, 2)
                &&& final(self).ten_v() == dem_den(old(self).ten_v(), khoa_ten_rieng_ca(chu@, tu_dien.kho_am_tiet()))
                &&& final(self).cum_v() == them_cum_den(
                    old(self).cum_v(),
                    khoa_cum_ca(chu@, tu_dien.kho_am_tiet(), tu_dien.kho_tu_ghep()),
                )
                &&& final(self).tu_v() == dem_den(old(self).tu_v(), khoa_tu_dung_ca(chu@))
                &&& final(self).da_doc_v() == old(self).da_doc_v() + chu@.len()
            },
            !ok ==> {
                &&& final(self).dem_kieu_v() == old(self).dem_kieu_v()
                &&& final(self).ten_v() == old(self).ten_v()
                &&& final(self).cum_v() == old(self).cum_v()
                &&& final(self).tu_v() == old(self).tu_v()
                &&& final(self).da_doc_v() == old(self).da_doc_v()
            },
    {
        let n = ky_tu(chu).len();
        if n > GIOI_HAN_DOC - self.da_doc {
            return false;
        }
        let ghost t = self.da_doc as int;
        let ghost s = chu@;
        proof {
            crate::tach_tu::lemma_so_tu_chan(s);
            crate::dau_thanh::lemma_dem_phieu_chan(s, cat_spec(s).len() as int, 1);
            crate::dau_thanh::lemma_dem_phieu_chan(s, cat_spec(s).len() as int, 2);
            lemma_dem_den_gioi_han(self.ten@, khoa_ten_rieng_ca(s, tu_dien.kho_am_tiet()), t);
            lemma_dem_den_gioi_han(self.tu@, khoa_tu_dung_ca(s), t);
            lemma_them_cum_den_gioi_han(
                (self.cum.van_tay_mot_lan(), self.cum.hai_lan()),
                khoa_cum_ca(s, tu_dien.kho_am_tiet(), tu_dien.kho_tu_ghep()),
                t,
            );
        }
        crate::dau_thanh::dem(chu, &mut self.dem_kieu);
        gom_ten_rieng(chu, tu_dien, &mut self.ten);
        gom_cum_ten_rieng(chu, tu_dien, &mut self.cum);
        gom_tu_dung(chu, &mut self.tu);
        self.da_doc = self.da_doc + n;
        true
    }

    /// Chốt lượt một: phiếu kiểu đặt dấu, tên riêng, cụm tên riêng và vốn từ của
    /// sách (những gì gặp từ ba lần trở lên).
    pub fn chot(self) -> (r: (DemKieu, BangChu<()>, BangChu<()>, BangChu<()>))
        requires
            self.hop_le(),
        ensures
            r.0 == self.dem_kieu_v(),
            r.1.hop_le() && r.1@.dom() == du_lan(self.ten_v()),
            r.2.hop_le() && r.2@.dom() == du_lan(self.cum_v().1),
            r.3.hop_le() && r.3@.dom() == du_lan(self.tu_v()),
    {
        let DemSach { dem_kieu, ten, cum, tu, da_doc: _ } = self;
        (dem_kieu, chot_ten_rieng(ten), chot_cum_ten_rieng(cum), chot_tu_dung(tu))
    }
}


/// Không có chỗ vá nào thì nội dung file giữ nguyên từng ký tự và không có chỗ
/// nào bị bỏ.
pub proof fn lemma_khong_va_thi_giu_nguyen(f: Seq<char>)
    ensures
        va_file_spec(f, seq![]) == (f, 0nat),
{
    let ds = Seq::<(nat, nat, Seq<char>)>::empty().map_values(|x: (nat, nat, Seq<char>)| phep_va(x));
    assert(ds =~= Seq::<SuaDoiV>::empty());
    assert(vt_byte(f, 0) == 0) by {
        assert(f.take(0) =~= Seq::<char>::empty());
    }
    assert(vt_byte(f, f.len() as int) == encode_utf8(f).len()) by {
        assert(f.take(f.len() as int) =~= f);
    }
    crate::sua::lemma_chi_so(f, 0);
    crate::sua::lemma_chi_so(f, f.len() as int);
    assert(f.subrange(0, f.len() as int) =~= f);
    assert(Seq::<char>::empty() + f =~= f);
}


/// Các bảng đếm của lượt một ở dạng toán học.
pub struct DemSachV {
    pub dem_kieu: DemKieu,
    pub ten: Map<Seq<char>, usize>,
    pub cum: (Set<u64>, Map<Seq<char>, usize>),
    pub tu: Map<Seq<char>, usize>,
    pub da_doc: nat,
}

impl View for DemSach {
    type V = DemSachV;

    open spec fn view(&self) -> DemSachV {
        DemSachV {
            dem_kieu: self.dem_kieu_v(),
            ten: self.ten_v(),
            cum: self.cum_v(),
            tu: self.tu_v(),
            da_doc: self.da_doc_v(),
        }
    }
}

/// Đếm một đoạn (đã dựng lại NFC) vào các bảng; `None` khi tổng số ký tự đọc
/// vượt [`GIOI_HAN_DOC`].
pub open spec fn dem_doan_spec(st: DemSachV, chu: Seq<char>, am: Set<Seq<char>>, ghep: Set<Seq<char>>) -> Option<
    DemSachV,
> {
    if st.da_doc + chu.len() > GIOI_HAN_DOC {
        None
    } else {
        let n = cat_spec(chu).len() as int;
        Some(
            DemSachV {
                dem_kieu: DemKieu {
                    cu: (st.dem_kieu.cu + dem_phieu(chu, n, 1)) as usize,
                    moi: (st.dem_kieu.moi + dem_phieu(chu, n, 2)) as usize,
                },
                ten: dem_den(st.ten, khoa_ten_rieng_ca(chu, am)),
                cum: them_cum_den(st.cum, khoa_cum_ca(chu, am, ghep)),
                tu: dem_den(st.tu, khoa_tu_dung_ca(chu)),
                da_doc: st.da_doc + chu.len(),
            },
        )
    }
}

/// Đếm lần lượt `ds[..i]`, mỗi đoạn dựng lại NFC trước khi đếm.
pub open spec fn dem_cac_doan(st: DemSachV, ds: Seq<DoanV>, i: int, am: Set<Seq<char>>, ghep: Set<Seq<char>>) -> Option<
    DemSachV,
>
    decreases i,
{
    if i <= 0 {
        Some(st)
    } else {
        match dem_cac_doan(st, ds, i - 1, am, ghep) {
            None => None,
            Some(t) => dem_doan_spec(t, nfc_cua(ds[i - 1].chu), am, ghep),
        }
    }
}

impl DemSach {
    /// Đếm mọi đoạn của một file XHTML đã đọc thành chữ: quét ra các đoạn, dựng
    /// lại NFC từng đoạn rồi đếm. Trả số đoạn đã đếm; `None` khi tổng số ký tự
    /// đọc vượt [`GIOI_HAN_DOC`] (khi ấy các bảng chỉ còn giữ bất biến).
    pub fn them_file(&mut self, noi_dung: &str, tu_dien: &TuDien) -> (r: Option<usize>)
        requires
            old(self).hop_le(),
            tu_dien.hop_le(),
        ensures
            final(self).hop_le(),
            ({
                let ds = quet_spec(noi_dung@);
                let kq = dem_cac_doan(old(self)@, ds, ds.len() as int, tu_dien.kho_am_tiet(), tu_dien.kho_tu_ghep());
                &&& r is None <==> kq is None
                &&& r matches Some(n) ==> n == ds.len() && kq == Some(final(self)@)
            }),
    {
        let doan = crate::quet::quet(noi_dung);
        let ghost ds = quet_spec(noi_dung@);
        let ghost am = tu_dien.kho_am_tiet();
        let ghost ghep = tu_dien.kho_tu_ghep();
        let ghost st0 = self@;
        let mut i: usize = 0;
        while i < doan.len()
            invariant
                i <= doan@.len(),
                crate::quet::dsd(doan@) == ds,
                self.hop_le(),
                tu_dien.hop_le(),
                am == tu_dien.kho_am_tiet(),
                ghep == tu_dien.kho_tu_ghep(),
                dem_cac_doan(st0, ds, i as int, am, ghep) == Some(self@),
                st0 == old(self)@,
                ds == quet_spec(noi_dung@),
            decreases doan.len() - i,
        {
            assert(ds[i as int] == doan@[i as int]@);
            let chu = match crate::chuan_hoa::dung_lai_nfc(doan[i].chu.as_str()) {
                Some(x) => x,
                None => chep_chuoi(doan[i].chu.as_str()),
            };
            assert(chu@ == nfc_cua(ds[i as int].chu));
            let ghost truoc = self@;
            if !self.them_doan(chu.as_str(), tu_dien) {
                proof {
                    assert(truoc.da_doc + chu@.len() > GIOI_HAN_DOC);
                    assert(dem_doan_spec(truoc, chu@, am, ghep) is None);
                    assert(dem_cac_doan(st0, ds, i as int + 1, am, ghep) is None);
                    lemma_dem_cac_doan_het(st0, ds, i as int + 1, ds.len() as int, am, ghep);
                }
                return None;
            }
            assert(dem_doan_spec(truoc, chu@, am, ghep) == Some(self@));
            i += 1;
        }
        Some(doan.len())
    }
}

proof fn lemma_dem_cac_doan_het(
    st: DemSachV,
    ds: Seq<DoanV>,
    i: int,
    j: int,
    am: Set<Seq<char>>,
    ghep: Set<Seq<char>>,
)
    requires
        0 <= i <= j,
        dem_cac_doan(st, ds, i, am, ghep) is None,
    ensures
        dem_cac_doan(st, ds, j, am, ghep) is None,
    decreases j - i,
{
    if i < j {
        lemma_dem_cac_doan_het(st, ds, i, j - 1, am, ghep);
    }
}

} // verus!
