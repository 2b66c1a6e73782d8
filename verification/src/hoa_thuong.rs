//! Hoa thường và các lớp ký tự Unicode mà std tính hộ.
//!
//! Khoảng trắng và ký tự điều khiển là hai tập nhỏ nên được viết ra ở đây. Hoa
//! thường và chữ cái thì gọi thẳng hàm của std; bảng Unicode đứng sau chúng dài
//! hàng nghìn dòng nên kết quả chỉ được đặt tên chứ không viết ra.
use vstd::prelude::*;

verus! {

/// Kết quả của `char::is_uppercase`.
pub uninterp spec fn la_hoa(c: char) -> bool;

/// Kết quả của `char::is_lowercase`.
pub uninterp spec fn la_thuong(c: char) -> bool;

/// Kết quả của `char::is_alphabetic`.
pub uninterp spec fn la_chu_cai(c: char) -> bool;

/// Ký tự có thuộc tính `White_Space` của Unicode, như `char::is_whitespace`:
/// U+0009–U+000D, U+0020, U+0085, U+00A0, U+1680, U+2000–U+200A, U+2028,
/// U+2029, U+202F, U+205F và U+3000.
pub open spec fn la_trang(c: char) -> bool {
    let n = c as u32;
    (0x09 <= n && n <= 0x0D) || n == 0x20 || n == 0x85 || n == 0xA0 || n == 0x1680 || (0x2000 <= n && n <= 0x200A)
        || n == 0x2028 || n == 0x2029 || n == 0x202F || n == 0x205F || n == 0x3000
}

/// Ký tự điều khiển (loại chung `Cc` của Unicode), như `char::is_control`:
/// U+0000–U+001F và U+007F–U+009F.
pub open spec fn la_dieu_khien(c: char) -> bool {
    let n = c as u32;
    n <= 0x1F || (0x7F <= n && n <= 0x9F)
}

/// Các ký tự mà `char::to_lowercase` cho ra.
pub uninterp spec fn thuong_ky_tu(c: char) -> Seq<char>;

/// Các ký tự mà `char::to_uppercase` cho ra.
pub uninterp spec fn hoa_ky_tu(c: char) -> Seq<char>;

/// Kết quả của `str::to_lowercase`.
pub uninterp spec fn thuong_cua(s: Seq<char>) -> Seq<char>;

/// Kết quả của `str::to_uppercase`.
pub uninterp spec fn hoa_cua(s: Seq<char>) -> Seq<char>;

/// Gọi `char::is_uppercase`; kết quả là [`la_hoa`] của ký tự.
#[verifier::external_body]
pub(crate) fn hoa(c: char) -> (b: bool)
    ensures
        b == la_hoa(c),
{
    c.is_uppercase()
}

/// Gọi `char::is_lowercase`; kết quả là [`la_thuong`] của ký tự.
#[verifier::external_body]
pub(crate) fn thuong(c: char) -> (b: bool)
    ensures
        b == la_thuong(c),
{
    c.is_lowercase()
}

/// Gọi `char::is_alphabetic`; kết quả là [`la_chu_cai`] của ký tự.
#[verifier::external_body]
pub(crate) fn chu_cai(c: char) -> (b: bool)
    ensures
        b == la_chu_cai(c),
{
    c.is_alphabetic()
}

/// Ký tự khoảng trắng theo Unicode ([`la_trang`]).
pub fn trang(c: char) -> (b: bool)
    ensures
        b == la_trang(c),
{
    let n = c as u32;
    (0x09 <= n && n <= 0x0D) || n == 0x20 || n == 0x85 || n == 0xA0 || n == 0x1680 || (0x2000 <= n && n <= 0x200A)
        || n == 0x2028 || n == 0x2029 || n == 0x202F || n == 0x205F || n == 0x3000
}

/// Ký tự điều khiển ([`la_dieu_khien`]).
pub fn dieu_khien(c: char) -> (b: bool)
    ensures
        b == la_dieu_khien(c),
{
    let n = c as u32;
    n <= 0x1F || (0x7F <= n && n <= 0x9F)
}

/// Gọi `char::to_lowercase` và gom các ký tự nó cho ra; kết quả là
/// [`thuong_ky_tu`] của ký tự.
#[verifier::external_body]
pub(crate) fn ky_tu_thuong(c: char) -> (r: Vec<char>)
    ensures
        r@ == thuong_ky_tu(c),
{
    c.to_lowercase().collect()
}

/// Gọi `char::to_uppercase` và gom các ký tự nó cho ra; kết quả là
/// [`hoa_ky_tu`] của ký tự.
#[verifier::external_body]
pub(crate) fn ky_tu_hoa(c: char) -> (r: Vec<char>)
    ensures
        r@ == hoa_ky_tu(c),
{
    c.to_uppercase().collect()
}

/// Gọi `str::to_lowercase` trên chuỗi dựng từ dãy ký tự; kết quả là
/// [`thuong_cua`] của dãy.
#[verifier::external_body]
pub(crate) fn chuoi_thuong(s: &[char]) -> (r: Vec<char>)
    ensures
        r@ == thuong_cua(s@),
{
    let v: String = s.iter().collect();
    v.to_lowercase().chars().collect()
}

/// Gọi `str::to_uppercase` trên chuỗi dựng từ dãy ký tự; kết quả là
/// [`hoa_cua`] của dãy.
#[verifier::external_body]
pub(crate) fn chuoi_hoa(s: &[char]) -> (r: Vec<char>)
    ensures
        r@ == hoa_cua(s@),
{
    let v: String = s.iter().collect();
    v.to_uppercase().chars().collect()
}

} // verus!
