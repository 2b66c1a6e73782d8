//! Cấu tạo âm tiết tiếng Việt: tách một tiếng thành *âm đầu + vần + thanh*, rồi
//! ghép ngược lại.
//!
//! Tiếng nào ghép được từ ba thành phần ấy là hợp lệ, không thì sai — và ta biết
//! **sai ở đâu**, nên sinh được ứng viên sửa thay vì chỉ báo đỏ.
use vstd::prelude::*;
use crate::chuoi::{
    ascii_chu, bang_nhau, cat_doan, chuoi, cuoi_la, dau_la, ky_tu, la_ascii_chu, la_cuoi, la_dau, noi,
};
use crate::hoa_thuong::{
    chu_cai, chuoi_hoa, chuoi_thuong, hoa, hoa_cua, hoa_ky_tu, ky_tu_hoa, la_chu_cai, la_hoa, thuong_cua,
};

verus! {

/// Thanh điệu, theo thứ tự quen thuộc.
pub const NGANG: u8 = 0;
pub const HUYEN: u8 = 1;
pub const SAC: u8 = 2;
pub const HOI: u8 = 3;
pub const NGA: u8 = 4;
pub const NANG: u8 = 5;

/// Nguyên âm mang thanh → (nguyên âm gốc, thanh). Mười hai nguyên âm gốc, mỗi
/// cái sáu dạng. Ký tự khác thì giữ nguyên, thanh ngang.
pub open spec fn bo_thanh_spec(c: char) -> (char, u8) {
    match c {
        'a' => ('a', 0u8),
        'à' => ('a', 1u8),
        'á' => ('a', 2u8),
        'ả' => ('a', 3u8),
        'ã' => ('a', 4u8),
        'ạ' => ('a', 5u8),
        'ă' => ('ă', 0u8),
        'ằ' => ('ă', 1u8),
        'ắ' => ('ă', 2u8),
        'ẳ' => ('ă', 3u8),
        'ẵ' => ('ă', 4u8),
        'ặ' => ('ă', 5u8),
        'â' => ('â', 0u8),
        'ầ' => ('â', 1u8),
        'ấ' => ('â', 2u8),
        'ẩ' => ('â', 3u8),
        'ẫ' => ('â', 4u8),
        'ậ' => ('â', 5u8),
        'e' => ('e', 0u8),
        'è' => ('e', 1u8),
        'é' => ('e', 2u8),
        'ẻ' => ('e', 3u8),
        'ẽ' => ('e', 4u8),
        'ẹ' => ('e', 5u8),
        'ê' => ('ê', 0u8),
        'ề' => ('ê', 1u8),
        'ế' => ('ê', 2u8),
        'ể' => ('ê', 3u8),
        'ễ' => ('ê', 4u8),
        'ệ' => ('ê', 5u8),
        'i' => ('i', 0u8),
        'ì' => ('i', 1u8),
        'í' => ('i', 2u8),
        'ỉ' => ('i', 3u8),
        'ĩ' => ('i', 4u8),
        'ị' => ('i', 5u8),
        'o' => ('o', 0u8),
        'ò' => ('o', 1u8),
        'ó' => ('o', 2u8),
        'ỏ' => ('o', 3u8),
        'õ' => ('o', 4u8),
        'ọ' => ('o', 5u8),
        'ô' => ('ô', 0u8),
        'ồ' => ('ô', 1u8),
        'ố' => ('ô', 2u8),
        'ổ' => ('ô', 3u8),
        'ỗ' => ('ô', 4u8),
        'ộ' => ('ô', 5u8),
        'ơ' => ('ơ', 0u8),
        'ờ' => ('ơ', 1u8),
        'ớ' => ('ơ', 2u8),
        'ở' => ('ơ', 3u8),
        'ỡ' => ('ơ', 4u8),
        'ợ' => ('ơ', 5u8),
        'u' => ('u', 0u8),
        'ù' => ('u', 1u8),
        'ú' => ('u', 2u8),
        'ủ' => ('u', 3u8),
        'ũ' => ('u', 4u8),
        'ụ' => ('u', 5u8),
        'ư' => ('ư', 0u8),
        'ừ' => ('ư', 1u8),
        'ứ' => ('ư', 2u8),
        'ử' => ('ư', 3u8),
        'ữ' => ('ư', 4u8),
        'ự' => ('ư', 5u8),
        'y' => ('y', 0u8),
        'ỳ' => ('y', 1u8),
        'ý' => ('y', 2u8),
        'ỷ' => ('y', 3u8),
        'ỹ' => ('y', 4u8),
        'ỵ' => ('y', 5u8),
        _ => (c, 0u8),
    }
}

/// Mười hai nguyên âm gốc (không mang thanh).
pub open spec fn la_goc(c: char) -> bool {
    c == 'a' || c == 'ă' || c == 'â' || c == 'e' || c == 'ê' || c == 'i' || c == 'o' || c == 'ô'
        || c == 'ơ' || c == 'u' || c == 'ư' || c == 'y'
}

/// Nguyên âm gốc mang thanh `t`. Ký tự không phải nguyên âm gốc thì giữ nguyên.
pub open spec fn gan_thanh_spec(c: char, t: u8) -> char {
    match c {
        'a' => if t == 0 { 'a' } else if t == 1 { 'à' } else if t == 2 { 'á' } else if t == 3 { 'ả' } else if t == 4 { 'ã' } else { 'ạ' },
        'ă' => if t == 0 { 'ă' } else if t == 1 { 'ằ' } else if t == 2 { 'ắ' } else if t == 3 { 'ẳ' } else if t == 4 { 'ẵ' } else { 'ặ' },
        'â' => if t == 0 { 'â' } else if t == 1 { 'ầ' } else if t == 2 { 'ấ' } else if t == 3 { 'ẩ' } else if t == 4 { 'ẫ' } else { 'ậ' },
        'e' => if t == 0 { 'e' } else if t == 1 { 'è' } else if t == 2 { 'é' } else if t == 3 { 'ẻ' } else if t == 4 { 'ẽ' } else { 'ẹ' },
        'ê' => if t == 0 { 'ê' } else if t == 1 { 'ề' } else if t == 2 { 'ế' } else if t == 3 { 'ể' } else if t == 4 { 'ễ' } else { 'ệ' },
        'i' => if t == 0 { 'i' } else if t == 1 { 'ì' } else if t == 2 { 'í' } else if t == 3 { 'ỉ' } else if t == 4 { 'ĩ' } else { 'ị' },
        'o' => if t == 0 { 'o' } else if t == 1 { 'ò' } else if t == 2 { 'ó' } else if t == 3 { 'ỏ' } else if t == 4 { 'õ' } else { 'ọ' },
        'ô' => if t == 0 { 'ô' } else if t == 1 { 'ồ' } else if t == 2 { 'ố' } else if t == 3 { 'ổ' } else if t == 4 { 'ỗ' } else { 'ộ' },
        'ơ' => if t == 0 { 'ơ' } else if t == 1 { 'ờ' } else if t == 2 { 'ớ' } else if t == 3 { 'ở' } else if t == 4 { 'ỡ' } else { 'ợ' },
        'u' => if t == 0 { 'u' } else if t == 1 { 'ù' } else if t == 2 { 'ú' } else if t == 3 { 'ủ' } else if t == 4 { 'ũ' } else { 'ụ' },
        'ư' => if t == 0 { 'ư' } else if t == 1 { 'ừ' } else if t == 2 { 'ứ' } else if t == 3 { 'ử' } else if t == 4 { 'ữ' } else { 'ự' },
        'y' => if t == 0 { 'y' } else if t == 1 { 'ỳ' } else if t == 2 { 'ý' } else if t == 3 { 'ỷ' } else if t == 4 { 'ỹ' } else { 'ỵ' },
        _ => c,
    }
}

/// Nguyên âm tiếng Việt, kể cả dạng mang thanh.
pub open spec fn la_nguyen_am_spec(c: char) -> bool {
    la_goc(bo_thanh_spec(c).0)
}

/// Nguyên âm tiếng Việt viết hoa, kể cả dạng mang thanh (`Ệ`, `Ừ`, `Ắ`).
pub open spec fn la_nguyen_am_hoa(c: char) -> bool {
    c == 'A' || c == 'À' || c == 'Á' || c == 'Ả' || c == 'Ã' || c == 'Ạ' || c == 'Ă' || c == 'Ằ' ||
        c == 'Ắ' || c == 'Ẳ' || c == 'Ẵ' || c == 'Ặ' || c == 'Â' || c == 'Ầ' || c == 'Ấ' || c == 'Ẩ' ||
        c == 'Ẫ' || c == 'Ậ' || c == 'E' || c == 'È' || c == 'É' || c == 'Ẻ' || c == 'Ẽ' || c == 'Ẹ' ||
        c == 'Ê' || c == 'Ề' || c == 'Ế' || c == 'Ể' || c == 'Ễ' || c == 'Ệ' || c == 'I' || c == 'Ì' ||
        c == 'Í' || c == 'Ỉ' || c == 'Ĩ' || c == 'Ị' || c == 'O' || c == 'Ò' || c == 'Ó' || c == 'Ỏ' ||
        c == 'Õ' || c == 'Ọ' || c == 'Ô' || c == 'Ồ' || c == 'Ố' || c == 'Ổ' || c == 'Ỗ' || c == 'Ộ' ||
        c == 'Ơ' || c == 'Ờ' || c == 'Ớ' || c == 'Ở' || c == 'Ỡ' || c == 'Ợ' || c == 'U' || c == 'Ù' ||
        c == 'Ú' || c == 'Ủ' || c == 'Ũ' || c == 'Ụ' || c == 'Ư' || c == 'Ừ' || c == 'Ứ' || c == 'Ử' ||
        c == 'Ữ' || c == 'Ự' || c == 'Y' || c == 'Ỳ' || c == 'Ý' || c == 'Ỷ' || c == 'Ỹ' || c == 'Ỵ'
}

/// Chữ trong bảng chữ cái tiếng Việt: chữ Latin ASCII, nguyên âm có dấu (thường
/// hay hoa), `đ`, `Đ`.
pub open spec fn la_chu_viet_spec(c: char) -> bool {
    la_ascii_chu(c) || la_nguyen_am_spec(c) || c == 'đ' || c == 'Đ' || la_nguyen_am_hoa(c)
}

/// Mọi ký tự của dãy đều là chữ tiếng Việt.
pub open spec fn toan_chu_viet(s: Seq<char>) -> bool {
    forall|i: int| 0 <= i < s.len() ==> la_chu_viet_spec(#[trigger] s[i])
}

/// Bỏ thanh khỏi từng ký tự, giữ dấu phụ.
pub open spec fn bo_thanh_chuoi_spec(s: Seq<char>) -> Seq<char> {
    Seq::new(s.len(), |i: int| bo_thanh_spec(s[i]).0)
}

/// Chữ cái nền ASCII của một chữ đã bỏ thanh.
pub open spec fn ve_ascii(c: char) -> char {
    if c == 'ă' || c == 'â' {
        'a'
    } else if c == 'ê' {
        'e'
    } else if c == 'ô' || c == 'ơ' {
        'o'
    } else if c == 'ư' {
        'u'
    } else if c == 'đ' {
        'd'
    } else if c == 'Đ' {
        'D'
    } else {
        c
    }
}

/// Bỏ cả thanh lẫn dấu phụ.
pub open spec fn bo_het_dau_spec(s: Seq<char>) -> Seq<char> {
    Seq::new(s.len(), |i: int| ve_ascii(bo_thanh_spec(s[i]).0))
}

pub open spec fn am_dau_thu(i: int) -> Seq<char> {
    if i == 0 {
        seq!['n', 'g', 'h']
    } else if i == 1 {
        seq!['n', 'g']
    } else if i == 2 {
        seq!['n', 'h']
    } else if i == 3 {
        seq!['c', 'h']
    } else if i == 4 {
        seq!['t', 'r']
    } else if i == 5 {
        seq!['t', 'h']
    } else if i == 6 {
        seq!['p', 'h']
    } else if i == 7 {
        seq!['k', 'h']
    } else if i == 8 {
        seq!['g', 'h']
    } else if i == 9 {
        seq!['g', 'i']
    } else if i == 10 {
        seq!['q', 'u']
    } else if i == 11 {
        seq!['b']
    } else if i == 12 {
        seq!['c']
    } else if i == 13 {
        seq!['d']
    } else if i == 14 {
        seq!['đ']
    } else if i == 15 {
        seq!['g']
    } else if i == 16 {
        seq!['h']
    } else if i == 17 {
        seq!['k']
    } else if i == 18 {
        seq!['l']
    } else if i == 19 {
        seq!['m']
    } else if i == 20 {
        seq!['n']
    } else if i == 21 {
        seq!['p']
    } else if i == 22 {
        seq!['r']
    } else if i == 23 {
        seq!['s']
    } else if i == 24 {
        seq!['t']
    } else if i == 25 {
        seq!['v']
    } else if i == 26 {
        seq!['x']
    } else {
        seq![]
    }
}

pub open spec fn van_thu(i: int) -> Seq<char> {
    if i == 0 {
        seq!['a']
    } else if i == 1 {
        seq!['e']
    } else if i == 2 {
        seq!['ê']
    } else if i == 3 {
        seq!['i']
    } else if i == 4 {
        seq!['o']
    } else if i == 5 {
        seq!['ô']
    } else if i == 6 {
        seq!['ơ']
    } else if i == 7 {
        seq!['u']
    } else if i == 8 {
        seq!['ư']
    } else if i == 9 {
        seq!['y']
    } else if i == 10 {
        seq!['i', 'a']
    } else if i == 11 {
        seq!['u', 'a']
    } else if i == 12 {
        seq!['ư', 'a']
    } else if i == 13 {
        seq!['u', 'ơ']
    } else if i == 14 {
        seq!['o', 'a']
    } else if i == 15 {
        seq!['o', 'e']
    } else if i == 16 {
        seq!['u', 'ê']
    } else if i == 17 {
        seq!['u', 'y']
    } else if i == 18 {
        seq!['u', 'y', 'a']
    } else if i == 19 {
        seq!['a', 'i']
    } else if i == 20 {
        seq!['a', 'y']
    } else if i == 21 {
        seq!['â', 'y']
    } else if i == 22 {
        seq!['o', 'i']
    } else if i == 23 {
        seq!['ô', 'i']
    } else if i == 24 {
        seq!['ơ', 'i']
    } else if i == 25 {
        seq!['u', 'i']
    } else if i == 26 {
        seq!['ư', 'i']
    } else if i == 27 {
        seq!['o', 'a', 'i']
    } else if i == 28 {
        seq!['o', 'a', 'y']
    } else if i == 29 {
        seq!['u', 'â', 'y']
    } else if i == 30 {
        seq!['u', 'ô', 'i']
    } else if i == 31 {
        seq!['ư', 'ơ', 'i']
    } else if i == 32 {
        seq!['a', 'o']
    } else if i == 33 {
        seq!['a', 'u']
    } else if i == 34 {
        seq!['â', 'u']
    } else if i == 35 {
        seq!['e', 'o']
    } else if i == 36 {
        seq!['ê', 'u']
    } else if i == 37 {
        seq!['i', 'u']
    } else if i == 38 {
        seq!['ư', 'u']
    } else if i == 39 {
        seq!['i', 'ê', 'u']
    } else if i == 40 {
        seq!['y', 'ê', 'u']
    } else if i == 41 {
        seq!['ư', 'ơ', 'u']
    } else if i == 42 {
        seq!['o', 'a', 'o']
    } else if i == 43 {
        seq!['o', 'e', 'o']
    } else if i == 44 {
        seq!['u', 'y', 'u']
    } else if i == 45 {
        seq!['a', 'm']
    } else if i == 46 {
        seq!['ă', 'm']
    } else if i == 47 {
        seq!['â', 'm']
    } else if i == 48 {
        seq!['e', 'm']
    } else if i == 49 {
        seq!['ê', 'm']
    } else if i == 50 {
        seq!['i', 'm']
    } else if i == 51 {
        seq!['o', 'm']
    } else if i == 52 {
        seq!['ô', 'm']
    } else if i == 53 {
        seq!['ơ', 'm']
    } else if i == 54 {
        seq!['u', 'm']
    } else if i == 55 {
        seq!['ư', 'm']
    } else if i == 56 {
        seq!['ư', 'ơ', 'm']
    } else if i == 57 {
        seq!['i', 'ê', 'm']
    } else if i == 58 {
        seq!['y', 'ê', 'm']
    } else if i == 59 {
        seq!['u', 'ô', 'm']
    } else if i == 60 {
        seq!['o', 'a', 'm']
    } else if i == 61 {
        seq!['o', 'ă', 'm']
    } else if i == 62 {
        seq!['o', 'e', 'm']
    } else if i == 63 {
        seq!['a', 'n']
    } else if i == 64 {
        seq!['ă', 'n']
    } else if i == 65 {
        seq!['â', 'n']
    } else if i == 66 {
        seq!['e', 'n']
    } else if i == 67 {
        seq!['ê', 'n']
    } else if i == 68 {
        seq!['i', 'n']
    } else if i == 69 {
        seq!['o', 'n']
    } else if i == 70 {
        seq!['ô', 'n']
    } else if i == 71 {
        seq!['ơ', 'n']
    } else if i == 72 {
        seq!['u', 'n']
    } else if i == 73 {
        seq!['ư', 'n']
    } else if i == 74 {
        seq!['i', 'ê', 'n']
    } else if i == 75 {
        seq!['y', 'ê', 'n']
    } else if i == 76 {
        seq!['u', 'ô', 'n']
    } else if i == 77 {
        seq!['ư', 'ơ', 'n']
    } else if i == 78 {
        seq!['o', 'a', 'n']
    } else if i == 79 {
        seq!['o', 'ă', 'n']
    } else if i == 80 {
        seq!['o', 'e', 'n']
    } else if i == 81 {
        seq!['u', 'â', 'n']
    } else if i == 82 {
        seq!['u', 'y', 'ê', 'n']
    } else if i == 83 {
        seq!['a', 'n', 'g']
    } else if i == 84 {
        seq!['ă', 'n', 'g']
    } else if i == 85 {
        seq!['â', 'n', 'g']
    } else if i == 86 {
        seq!['e', 'n', 'g']
    } else if i == 87 {
        seq!['ê', 'n', 'g']
    } else if i == 88 {
        seq!['o', 'n', 'g']
    } else if i == 89 {
        seq!['ô', 'n', 'g']
    } else if i == 90 {
        seq!['u', 'n', 'g']
    } else if i == 91 {
        seq!['ư', 'n', 'g']
    } else if i == 92 {
        seq!['i', 'ê', 'n', 'g']
    } else if i == 93 {
        seq!['u', 'ô', 'n', 'g']
    } else if i == 94 {
        seq!['ư', 'ơ', 'n', 'g']
    } else if i == 95 {
        seq!['o', 'a', 'n', 'g']
    } else if i == 96 {
        seq!['o', 'ă', 'n', 'g']
    } else if i == 97 {
        seq!['o', 'o', 'n', 'g']
    } else if i == 98 {
        seq!['u', 'â', 'n', 'g']
    } else if i == 99 {
        seq!['a', 'n', 'h']
    } else if i == 100 {
        seq!['ê', 'n', 'h']
    } else if i == 101 {
        seq!['i', 'n', 'h']
    } else if i == 102 {
        seq!['o', 'a', 'n', 'h']
    } else if i == 103 {
        seq!['u', 'y', 'n', 'h']
    } else if i == 104 {
        seq!['u', 'ê', 'n', 'h']
    } else if i == 105 {
        seq!['a', 'p']
    } else if i == 106 {
        seq!['ă', 'p']
    } else if i == 107 {
        seq!['â', 'p']
    } else if i == 108 {
        seq!['e', 'p']
    } else if i == 109 {
        seq!['ê', 'p']
    } else if i == 110 {
        seq!['i', 'p']
    } else if i == 111 {
        seq!['o', 'p']
    } else if i == 112 {
        seq!['ô', 'p']
    } else if i == 113 {
        seq!['ơ', 'p']
    } else if i == 114 {
        seq!['u', 'p']
    } else if i == 115 {
        seq!['ư', 'ơ', 'p']
    } else if i == 116 {
        seq!['i', 'ê', 'p']
    } else if i == 117 {
        seq!['o', 'a', 'p']
    } else if i == 118 {
        seq!['a', 't']
    } else if i == 119 {
        seq!['ă', 't']
    } else if i == 120 {
        seq!['â', 't']
    } else if i == 121 {
        seq!['e', 't']
    } else if i == 122 {
        seq!['ê', 't']
    } else if i == 123 {
        seq!['i', 't']
    } else if i == 124 {
        seq!['o', 't']
    } else if i == 125 {
        seq!['ô', 't']
    } else if i == 126 {
        seq!['ơ', 't']
    } else if i == 127 {
        seq!['u', 't']
    } else if i == 128 {
        seq!['ư', 't']
    } else if i == 129 {
        seq!['i', 'ê', 't']
    } else if i == 130 {
        seq!['y', 'ê', 't']
    } else if i == 131 {
        seq!['u', 'ô', 't']
    } else if i == 132 {
        seq!['ư', 'ơ', 't']
    } else if i == 133 {
        seq!['o', 'a', 't']
    } else if i == 134 {
        seq!['o', 'ă', 't']
    } else if i == 135 {
        seq!['o', 'e', 't']
    } else if i == 136 {
        seq!['u', 'â', 't']
    } else if i == 137 {
        seq!['u', 'y', 't']
    } else if i == 138 {
        seq!['u', 'y', 'ê', 't']
    } else if i == 139 {
        seq!['a', 'c']
    } else if i == 140 {
        seq!['ă', 'c']
    } else if i == 141 {
        seq!['â', 'c']
    } else if i == 142 {
        seq!['e', 'c']
    } else if i == 143 {
        seq!['ê', 'c']
    } else if i == 144 {
        seq!['i', 'c']
    } else if i == 145 {
        seq!['o', 'c']
    } else if i == 146 {
        seq!['ô', 'c']
    } else if i == 147 {
        seq!['u', 'c']
    } else if i == 148 {
        seq!['ư', 'c']
    } else if i == 149 {
        seq!['i', 'ê', 'c']
    } else if i == 150 {
        seq!['u', 'ô', 'c']
    } else if i == 151 {
        seq!['ư', 'ơ', 'c']
    } else if i == 152 {
        seq!['o', 'a', 'c']
    } else if i == 153 {
        seq!['o', 'ă', 'c']
    } else if i == 154 {
        seq!['o', 'e', 'c']
    } else if i == 155 {
        seq!['o', 'o', 'c']
    } else if i == 156 {
        seq!['a', 'c', 'h']
    } else if i == 157 {
        seq!['ê', 'c', 'h']
    } else if i == 158 {
        seq!['i', 'c', 'h']
    } else if i == 159 {
        seq!['o', 'a', 'c', 'h']
    } else if i == 160 {
        seq!['u', 'ê', 'c', 'h']
    } else if i == 161 {
        seq!['u', 'y', 'c', 'h']
    } else {
        seq![]
    }
}

fn am_dau_thu_exec(i: usize) -> (r: Vec<char>)
    requires
        i < 27,
    ensures
        r@ == am_dau_thu(i as int),
{
    match i {
        0 => vec!['n', 'g', 'h'],
        1 => vec!['n', 'g'],
        2 => vec!['n', 'h'],
        3 => vec!['c', 'h'],
        4 => vec!['t', 'r'],
        5 => vec!['t', 'h'],
        6 => vec!['p', 'h'],
        7 => vec!['k', 'h'],
        8 => vec!['g', 'h'],
        9 => vec!['g', 'i'],
        10 => vec!['q', 'u'],
        11 => vec!['b'],
        12 => vec!['c'],
        13 => vec!['d'],
        14 => vec!['đ'],
        15 => vec!['g'],
        16 => vec!['h'],
        17 => vec!['k'],
        18 => vec!['l'],
        19 => vec!['m'],
        20 => vec!['n'],
        21 => vec!['p'],
        22 => vec!['r'],
        23 => vec!['s'],
        24 => vec!['t'],
        25 => vec!['v'],
        26 => vec!['x'],
        _ => Vec::new(),
    }
}

fn van_thu_exec(i: usize) -> (r: Vec<char>)
    requires
        i < 162,
    ensures
        r@ == van_thu(i as int),
{
    match i {
        0 => vec!['a'],
        1 => vec!['e'],
        2 => vec!['ê'],
        3 => vec!['i'],
        4 => vec!['o'],
        5 => vec!['ô'],
        6 => vec!['ơ'],
        7 => vec!['u'],
        8 => vec!['ư'],
        9 => vec!['y'],
        10 => vec!['i', 'a'],
        11 => vec!['u', 'a'],
        12 => vec!['ư', 'a'],
        13 => vec!['u', 'ơ'],
        14 => vec!['o', 'a'],
        15 => vec!['o', 'e'],
        16 => vec!['u', 'ê'],
        17 => vec!['u', 'y'],
        18 => vec!['u', 'y', 'a'],
        19 => vec!['a', 'i'],
        20 => vec!['a', 'y'],
        21 => vec!['â', 'y'],
        22 => vec!['o', 'i'],
        23 => vec!['ô', 'i'],
        24 => vec!['ơ', 'i'],
        25 => vec!['u', 'i'],
        26 => vec!['ư', 'i'],
        27 => vec!['o', 'a', 'i'],
        28 => vec!['o', 'a', 'y'],
        29 => vec!['u', 'â', 'y'],
        30 => vec!['u', 'ô', 'i'],
        31 => vec!['ư', 'ơ', 'i'],
        32 => vec!['a', 'o'],
        33 => vec!['a', 'u'],
        34 => vec!['â', 'u'],
        35 => vec!['e', 'o'],
        36 => vec!['ê', 'u'],
        37 => vec!['i', 'u'],
        38 => vec!['ư', 'u'],
        39 => vec!['i', 'ê', 'u'],
        40 => vec!['y', 'ê', 'u'],
        41 => vec!['ư', 'ơ', 'u'],
        42 => vec!['o', 'a', 'o'],
        43 => vec!['o', 'e', 'o'],
        44 => vec!['u', 'y', 'u'],
        45 => vec!['a', 'm'],
        46 => vec!['ă', 'm'],
        47 => vec!['â', 'm'],
        48 => vec!['e', 'm'],
        49 => vec!['ê', 'm'],
        50 => vec!['i', 'm'],
        51 => vec!['o', 'm'],
        52 => vec!['ô', 'm'],
        53 => vec!['ơ', 'm'],
        54 => vec!['u', 'm'],
        55 => vec!['ư', 'm'],
        56 => vec!['ư', 'ơ', 'm'],
        57 => vec!['i', 'ê', 'm'],
        58 => vec!['y', 'ê', 'm'],
        59 => vec!['u', 'ô', 'm'],
        60 => vec!['o', 'a', 'm'],
        61 => vec!['o', 'ă', 'm'],
        62 => vec!['o', 'e', 'm'],
        63 => vec!['a', 'n'],
        64 => vec!['ă', 'n'],
        65 => vec!['â', 'n'],
        66 => vec!['e', 'n'],
        67 => vec!['ê', 'n'],
        68 => vec!['i', 'n'],
        69 => vec!['o', 'n'],
        70 => vec!['ô', 'n'],
        71 => vec!['ơ', 'n'],
        72 => vec!['u', 'n'],
        73 => vec!['ư', 'n'],
        74 => vec!['i', 'ê', 'n'],
        75 => vec!['y', 'ê', 'n'],
        76 => vec!['u', 'ô', 'n'],
        77 => vec!['ư', 'ơ', 'n'],
        78 => vec!['o', 'a', 'n'],
        79 => vec!['o', 'ă', 'n'],
        80 => vec!['o', 'e', 'n'],
        81 => vec!['u', 'â', 'n'],
        82 => vec!['u', 'y', 'ê', 'n'],
        83 => vec!['a', 'n', 'g'],
        84 => vec!['ă', 'n', 'g'],
        85 => vec!['â', 'n', 'g'],
        86 => vec!['e', 'n', 'g'],
        87 => vec!['ê', 'n', 'g'],
        88 => vec!['o', 'n', 'g'],
        89 => vec!['ô', 'n', 'g'],
        90 => vec!['u', 'n', 'g'],
        91 => vec!['ư', 'n', 'g'],
        92 => vec!['i', 'ê', 'n', 'g'],
        93 => vec!['u', 'ô', 'n', 'g'],
        94 => vec!['ư', 'ơ', 'n', 'g'],
        95 => vec!['o', 'a', 'n', 'g'],
        96 => vec!['o', 'ă', 'n', 'g'],
        97 => vec!['o', 'o', 'n', 'g'],
        98 => vec!['u', 'â', 'n', 'g'],
        99 => vec!['a', 'n', 'h'],
        100 => vec!['ê', 'n', 'h'],
        101 => vec!['i', 'n', 'h'],
        102 => vec!['o', 'a', 'n', 'h'],
        103 => vec!['u', 'y', 'n', 'h'],
        104 => vec!['u', 'ê', 'n', 'h'],
        105 => vec!['a', 'p'],
        106 => vec!['ă', 'p'],
        107 => vec!['â', 'p'],
        108 => vec!['e', 'p'],
        109 => vec!['ê', 'p'],
        110 => vec!['i', 'p'],
        111 => vec!['o', 'p'],
        112 => vec!['ô', 'p'],
        113 => vec!['ơ', 'p'],
        114 => vec!['u', 'p'],
        115 => vec!['ư', 'ơ', 'p'],
        116 => vec!['i', 'ê', 'p'],
        117 => vec!['o', 'a', 'p'],
        118 => vec!['a', 't'],
        119 => vec!['ă', 't'],
        120 => vec!['â', 't'],
        121 => vec!['e', 't'],
        122 => vec!['ê', 't'],
        123 => vec!['i', 't'],
        124 => vec!['o', 't'],
        125 => vec!['ô', 't'],
        126 => vec!['ơ', 't'],
        127 => vec!['u', 't'],
        128 => vec!['ư', 't'],
        129 => vec!['i', 'ê', 't'],
        130 => vec!['y', 'ê', 't'],
        131 => vec!['u', 'ô', 't'],
        132 => vec!['ư', 'ơ', 't'],
        133 => vec!['o', 'a', 't'],
        134 => vec!['o', 'ă', 't'],
        135 => vec!['o', 'e', 't'],
        136 => vec!['u', 'â', 't'],
        137 => vec!['u', 'y', 't'],
        138 => vec!['u', 'y', 'ê', 't'],
        139 => vec!['a', 'c'],
        140 => vec!['ă', 'c'],
        141 => vec!['â', 'c'],
        142 => vec!['e', 'c'],
        143 => vec!['ê', 'c'],
        144 => vec!['i', 'c'],
        145 => vec!['o', 'c'],
        146 => vec!['ô', 'c'],
        147 => vec!['u', 'c'],
        148 => vec!['ư', 'c'],
        149 => vec!['i', 'ê', 'c'],
        150 => vec!['u', 'ô', 'c'],
        151 => vec!['ư', 'ơ', 'c'],
        152 => vec!['o', 'a', 'c'],
        153 => vec!['o', 'ă', 'c'],
        154 => vec!['o', 'e', 'c'],
        155 => vec!['o', 'o', 'c'],
        156 => vec!['a', 'c', 'h'],
        157 => vec!['ê', 'c', 'h'],
        158 => vec!['i', 'c', 'h'],
        159 => vec!['o', 'a', 'c', 'h'],
        160 => vec!['u', 'ê', 'c', 'h'],
        161 => vec!['u', 'y', 'c', 'h'],
        _ => Vec::new(),
    }
}


/// Âm đầu, xếp **dài trước ngắn** vì phép tách khớp tham lam.
pub open spec fn ds_am_dau() -> Seq<Seq<char>> {
    Seq::new(27, |i: int| am_dau_thu(i))
}

/// Mọi vần (không mang thanh).
pub open spec fn ds_van() -> Seq<Seq<char>> {
    Seq::new(162, |i: int| van_thu(i))
}

pub open spec fn la_van(v: Seq<char>) -> bool {
    ds_van().contains(v)
}

/// Âm đầu đầu tiên trong danh sách, kể từ vị trí `i`, đứng đầu `g`.
pub open spec fn am_dau_tu(g: Seq<char>, i: int) -> Seq<char>
    decreases 27 - i,
{
    if i < 0 || i >= 27 {
        seq![]
    } else if la_dau(am_dau_thu(i), g) {
        am_dau_thu(i)
    } else {
        am_dau_tu(g, i + 1)
    }
}

/// Âm đầu của một khung chữ: âm đầu dài nhất khớp ở đầu, hoặc rỗng.
pub open spec fn am_dau_cua(g: Seq<char>) -> Seq<char> {
    am_dau_tu(g, 0)
}

/// Chữ mà âm đầu này nuốt mất của vần đi sau: `gi` nuốt `i`, `qu` nuốt `u`.
pub open spec fn chu_bi_nuot_spec(am_dau: Seq<char>) -> Option<char> {
    if am_dau == seq!['g', 'i'] {
        Some('i')
    } else if am_dau == seq!['q', 'u'] {
        Some('u')
    } else {
        None
    }
}

/// Vần thật sau khi trả lại chữ âm đầu đã nuốt, nếu phần viết ra chưa thành vần.
pub open spec fn van_that(am_dau: Seq<char>, van_viet: Seq<char>) -> Seq<char> {
    match chu_bi_nuot_spec(am_dau) {
        Some(c) => if !la_van(van_viet) && la_van(seq![c] + van_viet) {
            seq![c] + van_viet
        } else {
            van_viet
        },
        None => van_viet,
    }
}

/// Luật chính tả ràng buộc âm đầu với (bản viết ra của) vần đi sau.
pub open spec fn hop_le_am_dau_van_spec(am_dau: Seq<char>, van: Seq<char>) -> bool {
    let d = if van.len() > 0 { van[0] } else { ' ' };
    let truoc_hep = d == 'i' || d == 'e' || d == 'ê' || d == 'y';
    if am_dau == seq!['k'] || am_dau == seq!['g', 'h'] || am_dau == seq!['n', 'g', 'h'] {
        truoc_hep
    } else if am_dau == seq!['c'] || am_dau == seq!['g'] || am_dau == seq!['n', 'g'] {
        !truoc_hep
    } else if am_dau == seq!['q', 'u'] {
        !(d == 'u' || d == 'o')
    } else {
        true
    }
}


/// Chữ mở đầu vần thuộc nhóm `i`, `e`, `ê`, `y`.
pub open spec fn mo_dau_hep(van: Seq<char>) -> bool {
    van.len() > 0 && (van[0] == 'i' || van[0] == 'e' || van[0] == 'ê' || van[0] == 'y')
}

/// Luật chính tả k/c, gh/g, ngh/ng: đứng trước `i`, `e`, `ê`, `y` thì viết `k`,
/// `gh`, `ngh` và không viết `c`, `g`, `ng`; đứng trước mọi chữ khác thì ngược
/// lại. Với mọi vần.
pub proof fn lemma_luat_k_c(van: Seq<char>)
    ensures
        mo_dau_hep(van) ==> hop_le_am_dau_van_spec(seq!['k'], van) && hop_le_am_dau_van_spec(seq!['g', 'h'], van)
            && hop_le_am_dau_van_spec(seq!['n', 'g', 'h'], van) && !hop_le_am_dau_van_spec(seq!['c'], van)
            && !hop_le_am_dau_van_spec(seq!['g'], van) && !hop_le_am_dau_van_spec(seq!['n', 'g'], van),
        !mo_dau_hep(van) ==> !hop_le_am_dau_van_spec(seq!['k'], van) && !hop_le_am_dau_van_spec(seq!['g', 'h'], van)
            && !hop_le_am_dau_van_spec(seq!['n', 'g', 'h'], van) && hop_le_am_dau_van_spec(seq!['c'], van)
            && hop_le_am_dau_van_spec(seq!['g'], van) && hop_le_am_dau_van_spec(seq!['n', 'g'], van),
{
    let k = seq!['k'];
    let gh = seq!['g', 'h'];
    let ngh = seq!['n', 'g', 'h'];
    let c = seq!['c'];
    let g = seq!['g'];
    let ng = seq!['n', 'g'];
    assert(k.len() == 1 && c.len() == 1 && g.len() == 1 && gh.len() == 2 && ng.len() == 2 && ngh.len() == 3);
    assert(k[0] == 'k' && c[0] == 'c' && g[0] == 'g' && gh[0] == 'g' && ng[0] == 'n' && ngh[0] == 'n');
    assert(gh[1] == 'h' && ng[1] == 'g' && ngh[1] == 'g');
    assert(k != gh && k != ngh && gh != ngh);
    assert(c != k && c != gh && c != ngh);
    assert(g != k && g != gh && g != ngh);
    assert(ng != k && ng != gh && ng != ngh);
}

/// Khung chữ tách được thì đúng luật k/c: âm đầu `c`, `g`, `ng` không bao giờ
/// đứng trước `i`, `e`, `ê`, `y`, còn âm đầu `k`, `gh`, `ngh` thì luôn đứng trước
/// một trong bốn chữ ấy (`ky`, `kỹ` tách được; `cy` thì không).
pub proof fn lemma_tach_khung_luat_k_c(k: Seq<char>)
    ensures
        tach_khung_spec(k) matches Some(p) ==> {
            let rest = k.skip(p.0.len() as int);
            &&& (p.0 == seq!['c'] || p.0 == seq!['g'] || p.0 == seq!['n', 'g']) ==> !mo_dau_hep(rest)
            &&& (p.0 == seq!['k'] || p.0 == seq!['g', 'h'] || p.0 == seq!['n', 'g', 'h']) ==> mo_dau_hep(rest)
        },
{
    if tach_khung_spec(k) is Some {
        lemma_luat_k_c(k.skip(am_dau_cua(k).len() as int));
    }
}

/// Vần khép: âm cuối `ch`, `p`, `t`, `c`.
pub open spec fn van_khep_spec(v: Seq<char>) -> bool {
    la_cuoi(seq!['c', 'h'], v) || la_cuoi(seq!['p'], v) || la_cuoi(seq!['t'], v) || la_cuoi(seq!['c'], v)
}

/// Chẻ một khung chữ không mang thanh thành (âm đầu, vần).
pub open spec fn tach_khung_spec(k: Seq<char>) -> Option<(Seq<char>, Seq<char>)> {
    if k.len() == 0 || !toan_chu_viet(k) {
        None
    } else {
        let ad = am_dau_cua(k);
        let vv = k.skip(ad.len() as int);
        let v = van_that(ad, vv);
        if !la_van(v) || !hop_le_am_dau_van_spec(ad, vv) {
            None
        } else {
            Some((ad, v))
        }
    }
}

/// Thanh gắn vào vần có hợp lệ không: vần khép chỉ mang sắc hoặc nặng.
pub open spec fn thanh_hop_le_spec(van: Seq<char>, thanh: u8) -> bool {
    van_khep_spec(van) ==> (thanh == SAC || thanh == NANG)
}

/// Số chữ cái (theo `char::is_alphabetic`) trong dãy.
pub open spec fn so_chu_cai(s: Seq<char>) -> nat
    decreases s.len(),
{
    if s.len() == 0 {
        0
    } else {
        so_chu_cai(s.drop_last()) + if la_chu_cai(s.last()) { 1nat } else { 0nat }
    }
}

/// Số ký tự mang dấu thanh trong dãy.
pub open spec fn so_dau_thanh(s: Seq<char>) -> nat
    decreases s.len(),
{
    if s.len() == 0 {
        0
    } else {
        so_dau_thanh(s.drop_last()) + if bo_thanh_spec(s.last()).1 != NGANG { 1nat } else { 0nat }
    }
}

/// Thanh của ký tự mang dấu cuối cùng trong dãy, hoặc thanh ngang.
pub open spec fn thanh_cuoi(s: Seq<char>) -> u8
    decreases s.len(),
{
    if s.len() == 0 {
        NGANG
    } else if bo_thanh_spec(s.last()).1 != NGANG {
        bo_thanh_spec(s.last()).1
    } else {
        thanh_cuoi(s.drop_last())
    }
}

/// Một âm tiết đã tách, ở dạng toán học.
pub struct AmTietV {
    pub am_dau: Seq<char>,
    pub van: Seq<char>,
    pub thanh: u8,
    pub hoa_dau: bool,
    pub hoa_het: bool,
}

/// Chữ đầu viết hoa.
pub open spec fn hoa_dau_spec(t: Seq<char>) -> bool {
    t.len() > 0 && la_hoa(t[0])
}

/// Cả tiếng viết hoa: hơn một chữ cái, chữ cái nào cũng hoa.
pub open spec fn hoa_het_spec(t: Seq<char>) -> bool {
    so_chu_cai(t) > 1 && forall|i: int| 0 <= i < t.len() && la_chu_cai(t[i]) ==> la_hoa(#[trigger] t[i])
}

/// Tách một tiếng thành âm đầu + vần + thanh; `None` khi không ghép được từ ba
/// thành phần hợp lệ.
pub open spec fn tach_spec(t: Seq<char>) -> Option<AmTietV> {
    if t.len() == 0 {
        None
    } else {
        let thap = thuong_cua(t);
        if !toan_chu_viet(thap) || so_dau_thanh(thap) > 1 {
            None
        } else {
            let thanh = thanh_cuoi(thap);
            let goc = bo_thanh_chuoi_spec(thap);
            let ad = am_dau_cua(goc);
            let vv = goc.skip(ad.len() as int);
            let v = van_that(ad, vv);
            if !la_van(v) || (van_khep_spec(v) && thanh != SAC && thanh != NANG)
                || !hop_le_am_dau_van_spec(ad, vv) {
                None
            } else {
                Some(AmTietV {
                    am_dau: ad,
                    van: v,
                    thanh,
                    hoa_dau: hoa_dau_spec(t),
                    hoa_het: hoa_het_spec(t),
                })
            }
        }
    }
}

/// Nguyên âm mang dấu phụ.
pub open spec fn co_dau_phu(c: char) -> bool {
    c == 'ă' || c == 'â' || c == 'ê' || c == 'ô' || c == 'ơ' || c == 'ư'
}

/// Vị trí nguyên âm cuối cùng trong `van[..n]`, hoặc -1.
pub open spec fn nguyen_am_cuoi(van: Seq<char>, n: int) -> int
    decreases n,
{
    if n <= 0 {
        -1
    } else if la_nguyen_am_spec(van[n - 1]) {
        n - 1
    } else {
        nguyen_am_cuoi(van, n - 1)
    }
}

/// Vị trí nguyên âm mang dấu phụ cuối cùng trong `van[..n]`, hoặc -1.
pub open spec fn dau_phu_cuoi(van: Seq<char>, n: int) -> int
    decreases n,
{
    if n <= 0 {
        -1
    } else if la_nguyen_am_spec(van[n - 1]) && co_dau_phu(van[n - 1]) {
        n - 1
    } else {
        dau_phu_cuoi(van, n - 1)
    }
}

/// Số nguyên âm trong `van[..n]`.
pub open spec fn so_nguyen_am(van: Seq<char>, n: int) -> nat
    decreases n,
{
    if n <= 0 {
        0
    } else {
        so_nguyen_am(van, n - 1) + if la_nguyen_am_spec(van[n - 1]) { 1nat } else { 0nat }
    }
}

/// Vần mở có hai kiểu đặt dấu: `oa`, `oe`, `uy`.
pub open spec fn van_hai_kieu(van: Seq<char>) -> bool {
    van == seq!['o', 'a'] || van == seq!['o', 'e'] || van == seq!['u', 'y']
}

/// Dấu thanh đặt vào ký tự thứ mấy của vần.
///
/// Một nguyên âm: vào đó. Có nguyên âm mang dấu phụ: vào cái cuối cùng trong số
/// ấy. Có âm cuối: vào nguyên âm cuối. Vần `oa`/`oe`/`uy` kiểu mới: nguyên âm
/// cuối. Còn lại: nguyên âm áp chót.
pub open spec fn vi_tri_dau_thanh_spec(van: Seq<char>, kieu_moi: bool) -> int {
    let n = van.len() as int;
    let cuoi = nguyen_am_cuoi(van, n);
    if so_nguyen_am(van, n) == 0 {
        0
    } else if so_nguyen_am(van, n) == 1 {
        cuoi
    } else if dau_phu_cuoi(van, n) >= 0 {
        dau_phu_cuoi(van, n)
    } else if cuoi + 1 < n {
        cuoi
    } else if kieu_moi && van_hai_kieu(van) {
        cuoi
    } else {
        nguyen_am_cuoi(van, cuoi)
    }
}

/// Phần âm đầu viết ra khi ghép: bỏ chữ cuối của `gi`/`qu` khi vần mở đầu bằng
/// chính chữ ấy (`gi`+`iêng` → `giếng`).
pub open spec fn am_dau_viet(am_dau: Seq<char>, van: Seq<char>) -> Seq<char> {
    if chu_bi_nuot_spec(am_dau).is_some() && van.len() > 0 && chu_bi_nuot_spec(am_dau) == Some(van[0]) {
        am_dau.drop_last()
    } else {
        am_dau
    }
}

/// Vần đã gắn thanh vào đúng vị trí.
pub open spec fn van_co_thanh(van: Seq<char>, thanh: u8, kieu_moi: bool) -> Seq<char> {
    let vt = vi_tri_dau_thanh_spec(van, kieu_moi);
    Seq::new(van.len(), |i: int| if i == vt { gan_thanh_spec(van[i], thanh) } else { van[i] })
}

/// Ghép âm tiết thành chữ, giữ kiểu viết hoa.
pub open spec fn ghep_spec(at: AmTietV, kieu_moi: bool) -> Seq<char> {
    let s = am_dau_viet(at.am_dau, at.van) + van_co_thanh(at.van, at.thanh, kieu_moi);
    if at.hoa_het {
        hoa_cua(s)
    } else if at.hoa_dau && s.len() > 0 {
        hoa_ky_tu(s[0]) + s.skip(1)
    } else {
        s
    }
}

/// Ghép được mà không đòi thanh ngoài sáu thanh.
pub open spec fn ghep_duoc(at: AmTietV, kieu_moi: bool) -> bool {
    let vt = vi_tri_dau_thanh_spec(at.van, kieu_moi);
    (0 <= vt < at.van.len() && la_goc(at.van[vt])) ==> at.thanh < 6
}

} // verus!

verus! {

/// Một âm tiết đã tách xong.
#[derive(Debug, Clone)]
pub struct AmTiet {
    pub am_dau: String,
    /// Vần **không mang thanh**, viết thường.
    pub van: String,
    pub thanh: u8,
    /// Chữ đầu có viết hoa không, và cả tiếng có viết hoa không.
    pub hoa_dau: bool,
    pub hoa_het: bool,
}

impl View for AmTiet {
    type V = AmTietV;

    open spec fn view(&self) -> AmTietV {
        AmTietV {
            am_dau: self.am_dau@,
            van: self.van@,
            thanh: self.thanh,
            hoa_dau: self.hoa_dau,
            hoa_het: self.hoa_het,
        }
    }
}

/// Bỏ thanh khỏi một nguyên âm, trả về `(nguyên âm gốc, thanh)`.
pub fn bo_thanh(c: char) -> (r: (char, u8))
    ensures
        r == bo_thanh_spec(c),
{
    match c {
        'a' => ('a', 0u8),
        'à' => ('a', 1u8),
        'á' => ('a', 2u8),
        'ả' => ('a', 3u8),
        'ã' => ('a', 4u8),
        'ạ' => ('a', 5u8),
        'ă' => ('ă', 0u8),
        'ằ' => ('ă', 1u8),
        'ắ' => ('ă', 2u8),
        'ẳ' => ('ă', 3u8),
        'ẵ' => ('ă', 4u8),
        'ặ' => ('ă', 5u8),
        'â' => ('â', 0u8),
        'ầ' => ('â', 1u8),
        'ấ' => ('â', 2u8),
        'ẩ' => ('â', 3u8),
        'ẫ' => ('â', 4u8),
        'ậ' => ('â', 5u8),
        'e' => ('e', 0u8),
        'è' => ('e', 1u8),
        'é' => ('e', 2u8),
        'ẻ' => ('e', 3u8),
        'ẽ' => ('e', 4u8),
        'ẹ' => ('e', 5u8),
        'ê' => ('ê', 0u8),
        'ề' => ('ê', 1u8),
        'ế' => ('ê', 2u8),
        'ể' => ('ê', 3u8),
        'ễ' => ('ê', 4u8),
        'ệ' => ('ê', 5u8),
        'i' => ('i', 0u8),
        'ì' => ('i', 1u8),
        'í' => ('i', 2u8),
        'ỉ' => ('i', 3u8),
        'ĩ' => ('i', 4u8),
        'ị' => ('i', 5u8),
        'o' => ('o', 0u8),
        'ò' => ('o', 1u8),
        'ó' => ('o', 2u8),
        'ỏ' => ('o', 3u8),
        'õ' => ('o', 4u8),
        'ọ' => ('o', 5u8),
        'ô' => ('ô', 0u8),
        'ồ' => ('ô', 1u8),
        'ố' => ('ô', 2u8),
        'ổ' => ('ô', 3u8),
        'ỗ' => ('ô', 4u8),
        'ộ' => ('ô', 5u8),
        'ơ' => ('ơ', 0u8),
        'ờ' => ('ơ', 1u8),
        'ớ' => ('ơ', 2u8),
        'ở' => ('ơ', 3u8),
        'ỡ' => ('ơ', 4u8),
        'ợ' => ('ơ', 5u8),
        'u' => ('u', 0u8),
        'ù' => ('u', 1u8),
        'ú' => ('u', 2u8),
        'ủ' => ('u', 3u8),
        'ũ' => ('u', 4u8),
        'ụ' => ('u', 5u8),
        'ư' => ('ư', 0u8),
        'ừ' => ('ư', 1u8),
        'ứ' => ('ư', 2u8),
        'ử' => ('ư', 3u8),
        'ữ' => ('ư', 4u8),
        'ự' => ('ư', 5u8),
        'y' => ('y', 0u8),
        'ỳ' => ('y', 1u8),
        'ý' => ('y', 2u8),
        'ỷ' => ('y', 3u8),
        'ỹ' => ('y', 4u8),
        'ỵ' => ('y', 5u8),
        _ => (c, 0u8),
    }
}

/// Gắn thanh vào một nguyên âm gốc. Không phải nguyên âm thì trả nguyên nó.
pub fn gan_thanh(c: char, thanh: u8) -> (r: char)
    requires
        la_goc(c) ==> thanh < 6,
    ensures
        r == gan_thanh_spec(c, thanh),
{
    let t = thanh;
    match c {
        'a' => if t == 0 { 'a' } else if t == 1 { 'à' } else if t == 2 { 'á' } else if t == 3 { 'ả' } else if t == 4 { 'ã' } else { 'ạ' },
        'ă' => if t == 0 { 'ă' } else if t == 1 { 'ằ' } else if t == 2 { 'ắ' } else if t == 3 { 'ẳ' } else if t == 4 { 'ẵ' } else { 'ặ' },
        'â' => if t == 0 { 'â' } else if t == 1 { 'ầ' } else if t == 2 { 'ấ' } else if t == 3 { 'ẩ' } else if t == 4 { 'ẫ' } else { 'ậ' },
        'e' => if t == 0 { 'e' } else if t == 1 { 'è' } else if t == 2 { 'é' } else if t == 3 { 'ẻ' } else if t == 4 { 'ẽ' } else { 'ẹ' },
        'ê' => if t == 0 { 'ê' } else if t == 1 { 'ề' } else if t == 2 { 'ế' } else if t == 3 { 'ể' } else if t == 4 { 'ễ' } else { 'ệ' },
        'i' => if t == 0 { 'i' } else if t == 1 { 'ì' } else if t == 2 { 'í' } else if t == 3 { 'ỉ' } else if t == 4 { 'ĩ' } else { 'ị' },
        'o' => if t == 0 { 'o' } else if t == 1 { 'ò' } else if t == 2 { 'ó' } else if t == 3 { 'ỏ' } else if t == 4 { 'õ' } else { 'ọ' },
        'ô' => if t == 0 { 'ô' } else if t == 1 { 'ồ' } else if t == 2 { 'ố' } else if t == 3 { 'ổ' } else if t == 4 { 'ỗ' } else { 'ộ' },
        'ơ' => if t == 0 { 'ơ' } else if t == 1 { 'ờ' } else if t == 2 { 'ớ' } else if t == 3 { 'ở' } else if t == 4 { 'ỡ' } else { 'ợ' },
        'u' => if t == 0 { 'u' } else if t == 1 { 'ù' } else if t == 2 { 'ú' } else if t == 3 { 'ủ' } else if t == 4 { 'ũ' } else { 'ụ' },
        'ư' => if t == 0 { 'ư' } else if t == 1 { 'ừ' } else if t == 2 { 'ứ' } else if t == 3 { 'ử' } else if t == 4 { 'ữ' } else { 'ự' },
        'y' => if t == 0 { 'y' } else if t == 1 { 'ỳ' } else if t == 2 { 'ý' } else if t == 3 { 'ỷ' } else if t == 4 { 'ỹ' } else { 'ỵ' },
        _ => c,
    }
}

fn la_goc_exec(c: char) -> (b: bool)
    ensures
        b == la_goc(c),
{
    c == 'a' || c == 'ă' || c == 'â' || c == 'e' || c == 'ê' || c == 'i' || c == 'o' || c == 'ô'
        || c == 'ơ' || c == 'u' || c == 'ư' || c == 'y'
}

/// Ký tự có phải nguyên âm tiếng Việt (kể cả dạng mang thanh) không.
pub fn la_nguyen_am(c: char) -> (b: bool)
    ensures
        b == la_nguyen_am_spec(c),
{
    let (goc, _) = bo_thanh(c);
    la_goc_exec(goc)
}

/// Ký tự có thuộc bảng chữ cái tiếng Việt không.
pub fn la_chu_viet(c: char) -> (b: bool)
    ensures
        b == la_chu_viet_spec(c),
{
    ascii_chu(c) || la_nguyen_am(c) || c == 'đ' || c == 'Đ' || la_nguyen_am_hoa_exec(c)
}

fn la_nguyen_am_hoa_exec(c: char) -> (b: bool)
    ensures
        b == la_nguyen_am_hoa(c),
{
    c == 'A' || c == 'À' || c == 'Á' || c == 'Ả' || c == 'Ã' || c == 'Ạ' || c == 'Ă' || c == 'Ằ' ||
        c == 'Ắ' || c == 'Ẳ' || c == 'Ẵ' || c == 'Ặ' || c == 'Â' || c == 'Ầ' || c == 'Ấ' || c == 'Ẩ' ||
        c == 'Ẫ' || c == 'Ậ' || c == 'E' || c == 'È' || c == 'É' || c == 'Ẻ' || c == 'Ẽ' || c == 'Ẹ' ||
        c == 'Ê' || c == 'Ề' || c == 'Ế' || c == 'Ể' || c == 'Ễ' || c == 'Ệ' || c == 'I' || c == 'Ì' ||
        c == 'Í' || c == 'Ỉ' || c == 'Ĩ' || c == 'Ị' || c == 'O' || c == 'Ò' || c == 'Ó' || c == 'Ỏ' ||
        c == 'Õ' || c == 'Ọ' || c == 'Ô' || c == 'Ồ' || c == 'Ố' || c == 'Ổ' || c == 'Ỗ' || c == 'Ộ' ||
        c == 'Ơ' || c == 'Ờ' || c == 'Ớ' || c == 'Ở' || c == 'Ỡ' || c == 'Ợ' || c == 'U' || c == 'Ù' ||
        c == 'Ú' || c == 'Ủ' || c == 'Ũ' || c == 'Ụ' || c == 'Ư' || c == 'Ừ' || c == 'Ứ' || c == 'Ử' ||
        c == 'Ữ' || c == 'Ự' || c == 'Y' || c == 'Ỳ' || c == 'Ý' || c == 'Ỷ' || c == 'Ỹ' || c == 'Ỵ'
}

pub(crate) fn toan_chu_viet_ds(s: &[char]) -> (b: bool)
    ensures
        b == toan_chu_viet(s@),
{
    let mut i: usize = 0;
    while i < s.len()
        invariant
            i <= s.len(),
            forall|k: int| 0 <= k < i ==> la_chu_viet_spec(#[trigger] s@[k]),
        decreases s.len() - i,
    {
        if !la_chu_viet(s[i]) {
            return false;
        }
        i += 1;
    }
    true
}

pub(crate) fn bo_thanh_ds(s: &[char]) -> (r: Vec<char>)
    ensures
        r@ == bo_thanh_chuoi_spec(s@),
{
    let mut r: Vec<char> = Vec::new();
    let mut i: usize = 0;
    while i < s.len()
        invariant
            i <= s.len(),
            r@.len() == i,
            forall|k: int| 0 <= k < i ==> r@[k] == bo_thanh_spec(s@[k]).0,
        decreases s.len() - i,
    {
        r.push(bo_thanh(s[i]).0);
        i += 1;
    }
    assert(r@ =~= bo_thanh_chuoi_spec(s@));
    r
}

/// Bỏ toàn bộ dấu thanh khỏi một chuỗi, giữ nguyên dấu phụ.
pub fn bo_thanh_chuoi(s: &str) -> (r: String)
    ensures
        r@ == bo_thanh_chuoi_spec(s@),
{
    let v = ky_tu(s);
    let b = bo_thanh_ds(&v);
    chuoi(&b)
}

fn ve_ascii_exec(c: char) -> (r: char)
    ensures
        r == ve_ascii(c),
{
    if c == 'ă' || c == 'â' {
        'a'
    } else if c == 'ê' {
        'e'
    } else if c == 'ô' || c == 'ơ' {
        'o'
    } else if c == 'ư' {
        'u'
    } else if c == 'đ' {
        'd'
    } else if c == 'Đ' {
        'D'
    } else {
        c
    }
}

/// Bỏ cả dấu thanh lẫn dấu phụ, đưa về ASCII.
pub fn bo_het_dau(s: &str) -> (r: String)
    ensures
        r@ == bo_het_dau_spec(s@),
{
    let v = ky_tu(s);
    let mut r: Vec<char> = Vec::new();
    let mut i: usize = 0;
    while i < v.len()
        invariant
            i <= v.len(),
            v@ == s@,
            r@.len() == i,
            forall|k: int| 0 <= k < i ==> r@[k] == ve_ascii(bo_thanh_spec(v@[k]).0),
        decreases v.len() - i,
    {
        r.push(ve_ascii_exec(bo_thanh(v[i]).0));
        i += 1;
    }
    assert(r@ =~= bo_het_dau_spec(s@));
    chuoi(&r)
}

pub(crate) fn la_van_ds(v: &[char]) -> (b: bool)
    ensures
        b == la_van(v@),
{
    let mut i: usize = 0;
    while i < 162
        invariant
            i <= 162,
            forall|k: int| 0 <= k < i ==> van_thu(k) != v@,
        decreases 162 - i,
    {
        let w = van_thu_exec(i);
        if bang_nhau(&w, v) {
            assert(ds_van()[i as int] == v@);
            return true;
        }
        i += 1;
    }
    assert(!ds_van().contains(v@)) by {
        if ds_van().contains(v@) {
            let k = choose|k: int| 0 <= k < ds_van().len() && ds_van()[k] == v@;
            assert(van_thu(k) == v@);
        }
    }
    false
}

pub(crate) fn am_dau_ds(g: &[char]) -> (r: Vec<char>)
    ensures
        r@ == am_dau_cua(g@),
{
    let mut i: usize = 0;
    while i < 27
        invariant
            i <= 27,
            am_dau_tu(g@, 0) == am_dau_tu(g@, i as int),
        decreases 27 - i,
    {
        let a = am_dau_thu_exec(i);
        if dau_la(&a, g) {
            return a;
        }
        i += 1;
    }
    Vec::new()
}

pub(crate) fn chu_bi_nuot(am_dau: &[char]) -> (r: Option<char>)
    ensures
        r == chu_bi_nuot_spec(am_dau@),
{
    if am_dau.len() == 2 && am_dau[0] == 'g' && am_dau[1] == 'i' {
        assert(am_dau@ =~= seq!['g', 'i']);
        Some('i')
    } else if am_dau.len() == 2 && am_dau[0] == 'q' && am_dau[1] == 'u' {
        assert(am_dau@ =~= seq!['q', 'u']);
        Some('u')
    } else {
        assert(am_dau@ != seq!['g', 'i']);
        assert(am_dau@ != seq!['q', 'u']);
        None
    }
}

pub(crate) fn van_that_ds(am_dau: &[char], van_viet: &[char]) -> (r: Vec<char>)
    ensures
        r@ == van_that(am_dau@, van_viet@),
{
    match chu_bi_nuot(am_dau) {
        Some(c) => {
            if !la_van_ds(van_viet) {
                let bu = noi(&[c], van_viet);
                assert(seq![c] =~= [c]@);
                if la_van_ds(&bu) {
                    return bu;
                }
            }
            cat_doan(van_viet, 0, van_viet.len())
        },
        None => cat_doan(van_viet, 0, van_viet.len()),
    }
}

fn bang_chu(a: &[char], c0: char) -> (b: bool)
    ensures
        b == (a@ == seq![c0]),
{
    let r = a.len() == 1 && a[0] == c0;
    assert(r ==> a@ =~= seq![c0]);
    r
}

fn bang_hai(a: &[char], c0: char, c1: char) -> (b: bool)
    ensures
        b == (a@ == seq![c0, c1]),
{
    let r = a.len() == 2 && a[0] == c0 && a[1] == c1;
    assert(r ==> a@ =~= seq![c0, c1]);
    r
}

fn bang_ba(a: &[char], c0: char, c1: char, c2: char) -> (b: bool)
    ensures
        b == (a@ == seq![c0, c1, c2]),
{
    let r = a.len() == 3 && a[0] == c0 && a[1] == c1 && a[2] == c2;
    assert(r ==> a@ =~= seq![c0, c1, c2]);
    r
}

pub(crate) fn hop_le_am_dau_van(am_dau: &[char], van: &[char]) -> (b: bool)
    ensures
        b == hop_le_am_dau_van_spec(am_dau@, van@),
{
    let d = if van.len() > 0 { van[0] } else { ' ' };
    let truoc_hep = d == 'i' || d == 'e' || d == 'ê' || d == 'y';
    if bang_chu(am_dau, 'k') || bang_hai(am_dau, 'g', 'h')
        || bang_ba(am_dau, 'n', 'g', 'h') {
        truoc_hep
    } else if bang_chu(am_dau, 'c') || bang_chu(am_dau, 'g')
        || bang_hai(am_dau, 'n', 'g') {
        !truoc_hep
    } else if bang_hai(am_dau, 'q', 'u') {
        !(d == 'u' || d == 'o')
    } else {
        true
    }
}

pub(crate) fn van_khep_ds(v: &[char]) -> (b: bool)
    ensures
        b == van_khep_spec(v@),
{
    let ch = ['c', 'h'];
    let p = ['p'];
    let t = ['t'];
    let c = ['c'];
    assert(ch@ =~= seq!['c', 'h']);
    assert(p@ =~= seq!['p']);
    assert(t@ =~= seq!['t']);
    assert(c@ =~= seq!['c']);
    cuoi_la(&ch, v) || cuoi_la(&p, v) || cuoi_la(&t, v) || cuoi_la(&c, v)
}

pub(crate) fn tach_khung_ds(k: &[char]) -> (r: Option<(Vec<char>, Vec<char>)>)
    ensures
        match r {
            Some((a, v)) => tach_khung_spec(k@) == Some((a@, v@)),
            None => tach_khung_spec(k@) is None,
        },
{
    if k.len() == 0 || !toan_chu_viet_ds(k) {
        return None;
    }
    let ad = am_dau_ds(k);
    proof { lemma_am_dau_la_dau(k@, 0); }
    let vv = cat_doan(k, ad.len(), k.len());
    assert(vv@ == k@.skip(ad@.len() as int));
    let v = van_that_ds(&ad, &vv);
    if !la_van_ds(&v) || !hop_le_am_dau_van(&ad, &vv) {
        return None;
    }
    Some((ad, v))
}

/// Âm đầu tìm được luôn đứng đầu khung chữ.
pub proof fn lemma_am_dau_la_dau(g: Seq<char>, i: int)
    ensures
        la_dau(am_dau_tu(g, i), g),
    decreases 27 - i,
{
    if i < 0 || i >= 27 {
        assert(g.take(0) =~= seq![]);
    } else if !la_dau(am_dau_thu(i), g) {
        lemma_am_dau_la_dau(g, i + 1);
    }
}

/// Chẻ một **khung chữ không mang thanh** thành âm đầu + vần.
pub fn tach_khung(khung: &str) -> (r: Option<(String, String)>)
    ensures
        match r {
            Some((a, v)) => tach_khung_spec(khung@) == Some((a@, v@)),
            None => tach_khung_spec(khung@) is None,
        },
{
    let k = ky_tu(khung);
    match tach_khung_ds(&k) {
        Some((a, v)) => Some((chuoi(&a), chuoi(&v))),
        None => None,
    }
}

/// Thanh này gắn vào vần kia có hợp lệ không.
pub fn thanh_hop_le(van: &str, thanh: u8) -> (b: bool)
    ensures
        b == thanh_hop_le_spec(van@, thanh),
{
    let v = ky_tu(van);
    if van_khep_ds(&v) {
        thanh == SAC || thanh == NANG
    } else {
        true
    }
}

} // verus!

verus! {

pub(crate) fn vi_tri_ds(van: &[char], kieu_moi: bool) -> (r: usize)
    ensures
        r == vi_tri_dau_thanh_spec(van@, kieu_moi),
        van.len() > 0 ==> r < van.len(),
{
    let mut so: usize = 0;
    let mut cuoi: usize = 0;
    let mut ap: usize = 0;
    let mut dp: usize = 0;
    let mut co_dp = false;
    let mut i: usize = 0;
    while i < van.len()
        invariant
            i <= van.len(),
            so as int == so_nguyen_am(van@, i as int),
            so <= i,
            so > 0 ==> cuoi < i && cuoi as int == nguyen_am_cuoi(van@, i as int),
            so == 0 ==> nguyen_am_cuoi(van@, i as int) == -1,
            so > 1 ==> ap < cuoi && ap as int == nguyen_am_cuoi(van@, cuoi as int),
            co_dp ==> dp < i && dp as int == dau_phu_cuoi(van@, i as int),
            !co_dp ==> dau_phu_cuoi(van@, i as int) == -1,
        decreases van.len() - i,
    {
        let c = van[i];
        if la_nguyen_am(c) {
            if so > 0 {
                ap = cuoi;
            }
            cuoi = i;
            so = so + 1;
            if co_dau_phu_exec(c) {
                dp = i;
                co_dp = true;
            }
        }
        i += 1;
    }
    if so == 0 {
        0
    } else if so == 1 {
        cuoi
    } else if co_dp {
        dp
    } else if cuoi + 1 < van.len() {
        cuoi
    } else if kieu_moi && van_hai_kieu_ds(van) {
        cuoi
    } else {
        ap
    }
}

fn co_dau_phu_exec(c: char) -> (b: bool)
    ensures
        b == co_dau_phu(c),
{
    c == 'ă' || c == 'â' || c == 'ê' || c == 'ô' || c == 'ơ' || c == 'ư'
}

fn van_hai_kieu_ds(v: &[char]) -> (b: bool)
    ensures
        b == van_hai_kieu(v@),
{
    bang_hai(v, 'o', 'a') || bang_hai(v, 'o', 'e') || bang_hai(v, 'u', 'y')
}

/// Dấu thanh đặt vào nguyên âm thứ mấy của vần (đếm theo ký tự).
///
/// `kieu_moi` chỉ đổi kết quả ở đúng ba vần mở `oa`, `oe`, `uy`.
pub fn vi_tri_dau_thanh(am_dau: &str, van: &str, kieu_moi: bool) -> (r: usize)
    ensures
        r == vi_tri_dau_thanh_spec(van@, kieu_moi),
{
    let v = ky_tu(van);
    vi_tri_ds(&v, kieu_moi)
}

pub(crate) fn tach_ds(t: &[char]) -> (r: Option<AmTiet>)
    ensures
        match r {
            Some(a) => tach_spec(t@) == Some(a@),
            None => tach_spec(t@) is None,
        },
{
    if t.len() == 0 {
        return None;
    }
    let hoa_dau = hoa(t[0]);
    let mut dem: usize = 0;
    let mut tat_ca = true;
    let mut i: usize = 0;
    while i < t.len()
        invariant
            i <= t.len(),
            dem <= i,
            dem == so_chu_cai(t@.take(i as int)),
            tat_ca == (forall|k: int| 0 <= k < i && la_chu_cai(t@[k]) ==> la_hoa(#[trigger] t@[k])),
        decreases t.len() - i,
    {
        let c = t[i];
        assert(t@.take(i + 1).drop_last() == t@.take(i as int));
        if chu_cai(c) {
            dem = dem + 1;
            if !hoa(c) {
                tat_ca = false;
            }
        }
        i += 1;
    }
    assert(t@.take(t.len() as int) == t@);
    let hoa_het = dem > 1 && tat_ca;
    let thap = chuoi_thuong(t);
    if !toan_chu_viet_ds(&thap) {
        return None;
    }
    let mut thanh: u8 = NGANG;
    let mut so_dau: usize = 0;
    let mut goc: Vec<char> = Vec::new();
    let mut j: usize = 0;
    while j < thap.len()
        invariant
            j <= thap.len(),
            so_dau <= j,
            so_dau == so_dau_thanh(thap@.take(j as int)),
            thanh == thanh_cuoi(thap@.take(j as int)),
            goc@.len() == j,
            forall|k: int| 0 <= k < j ==> goc@[k] == bo_thanh_spec(thap@[k]).0,
        decreases thap.len() - j,
    {
        let (g, th) = bo_thanh(thap[j]);
        assert(thap@.take(j + 1).drop_last() == thap@.take(j as int));
        if th != NGANG {
            thanh = th;
            so_dau = so_dau + 1;
        }
        goc.push(g);
        j += 1;
    }
    assert(thap@.take(thap.len() as int) == thap@);
    assert(goc@ =~= bo_thanh_chuoi_spec(thap@));
    if so_dau > 1 {
        return None;
    }
    let ad = am_dau_ds(&goc);
    proof { lemma_am_dau_la_dau(goc@, 0); }
    let vv = cat_doan(&goc, ad.len(), goc.len());
    assert(vv@ == goc@.skip(ad@.len() as int));
    let van = van_that_ds(&ad, &vv);
    if !la_van_ds(&van) {
        return None;
    }
    if van_khep_ds(&van) {
        if thanh != SAC && thanh != NANG {
            return None;
        }
    }
    if !hop_le_am_dau_van(&ad, &vv) {
        return None;
    }
    Some(AmTiet { am_dau: chuoi(&ad), van: chuoi(&van), thanh, hoa_dau, hoa_het })
}

/// Tách một tiếng thành âm đầu + vần + thanh.
///
/// Trả `None` khi tiếng không ghép được từ ba thành phần hợp lệ.
pub fn tach(tieng: &str) -> (r: Option<AmTiet>)
    ensures
        match r {
            Some(a) => tach_spec(tieng@) == Some(a@),
            None => tach_spec(tieng@) is None,
        },
{
    let t = ky_tu(tieng);
    tach_ds(&t)
}

/// Tiếng này viết đúng cấu tạo không.
pub fn hop_le(tieng: &str) -> (b: bool)
    ensures
        b == tach_spec(tieng@).is_some(),
{
    tach(tieng).is_some()
}

pub(crate) fn ghep_ds(am_dau: &[char], van: &[char], thanh: u8, hoa_dau: bool, hoa_het: bool, kieu_moi: bool) -> (r: Vec<char>)
    requires
        ghep_duoc(AmTietV { am_dau: am_dau@, van: van@, thanh, hoa_dau, hoa_het }, kieu_moi),
    ensures
        r@ == ghep_spec(AmTietV { am_dau: am_dau@, van: van@, thanh, hoa_dau, hoa_het }, kieu_moi),
{
    let nuot = chu_bi_nuot(am_dau);
    let dau = if nuot.is_some() && van.len() > 0 && nuot == Some(van[0]) {
        cat_doan(am_dau, 0, am_dau.len() - 1)
    } else {
        cat_doan(am_dau, 0, am_dau.len())
    };
    assert(am_dau@.subrange(0, am_dau@.len() as int) == am_dau@);
    assert(dau@ == am_dau_viet(am_dau@, van@));
    let vt = vi_tri_ds(van, kieu_moi);
    let mut than: Vec<char> = Vec::new();
    let mut i: usize = 0;
    while i < van.len()
        invariant
            i <= van.len(),
            vt == vi_tri_dau_thanh_spec(van@, kieu_moi),
            ghep_duoc(AmTietV { am_dau: am_dau@, van: van@, thanh, hoa_dau, hoa_het }, kieu_moi),
            than@.len() == i,
            forall|k: int| 0 <= k < i ==> than@[k] == (if k == vt { gan_thanh_spec(van@[k], thanh) } else { van@[k] }),
        decreases van.len() - i,
    {
        if i == vt {
            than.push(gan_thanh(van[i], thanh));
        } else {
            than.push(van[i]);
        }
        i += 1;
    }
    assert(than@ =~= van_co_thanh(van@, thanh, kieu_moi));
    let s = noi(&dau, &than);
    if hoa_het {
        chuoi_hoa(&s)
    } else if hoa_dau && s.len() > 0 {
        let h = ky_tu_hoa(s[0]);
        let sau = cat_doan(&s, 1, s.len());
        assert(sau@ == s@.skip(1));
        noi(&h, &sau)
    } else {
        s
    }
}

/// Ghép âm tiết trở lại thành chữ, đặt dấu thanh đúng chỗ.
pub fn ghep(at: &AmTiet, kieu_moi: bool) -> (r: String)
    requires
        ghep_duoc(at@, kieu_moi),
    ensures
        r@ == ghep_spec(at@, kieu_moi),
{
    let ad = ky_tu(&at.am_dau);
    let van = ky_tu(&at.van);
    let s = ghep_ds(&ad, &van, at.thanh, at.hoa_dau, at.hoa_het, kieu_moi);
    chuoi(&s)
}

/// Toàn bộ vần, cho phần sinh ứng viên sửa.
pub fn tat_ca_van() -> (r: Vec<String>)
    ensures
        r@.len() == ds_van().len(),
        forall|i: int| 0 <= i < r@.len() ==> #[trigger] r@[i]@ == ds_van()[i],
{
    let mut r: Vec<String> = Vec::new();
    let mut i: usize = 0;
    while i < 162
        invariant
            i <= 162,
            r@.len() == i,
            forall|k: int| 0 <= k < i ==> #[trigger] r@[k]@ == van_thu(k),
        decreases 162 - i,
    {
        let v = van_thu_exec(i);
        r.push(chuoi(&v));
        i += 1;
    }
    r
}

/// Toàn bộ âm đầu, cho phần sinh ứng viên sửa.
pub fn tat_ca_am_dau() -> (r: Vec<String>)
    ensures
        r@.len() == ds_am_dau().len(),
        forall|i: int| 0 <= i < r@.len() ==> #[trigger] r@[i]@ == ds_am_dau()[i],
{
    let mut r: Vec<String> = Vec::new();
    let mut i: usize = 0;
    while i < 27
        invariant
            i <= 27,
            r@.len() == i,
            forall|k: int| 0 <= k < i ==> #[trigger] r@[k]@ == am_dau_thu(k),
        decreases 27 - i,
    {
        let v = am_dau_thu_exec(i);
        r.push(chuoi(&v));
        i += 1;
    }
    r
}


/// Thanh của ký tự mang dấu cuối cùng luôn là một trong sáu thanh.
pub proof fn lemma_thanh_cuoi_nho(s: Seq<char>)
    ensures
        thanh_cuoi(s) < 6,
    decreases s.len(),
{
    if s.len() > 0 {
        lemma_thanh_cuoi_nho(s.drop_last());
    }
}

/// Âm tiết tách được thì mang một trong sáu thanh, nên ghép lại được theo cả
/// hai kiểu đặt dấu.
pub proof fn lemma_tach_ghep_duoc(t: Seq<char>)
    ensures
        tach_spec(t) matches Some(a) ==> a.thanh < 6 && ghep_duoc(a, true) && ghep_duoc(a, false),
{
    if t.len() > 0 {
        lemma_thanh_cuoi_nho(thuong_cua(t));
    }
}

} // verus!
