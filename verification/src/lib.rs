use vstd::prelude::*;

pub mod chuoi;
pub mod bang_chu;
pub mod tach_chuoi;
pub mod hoa_thuong;
pub mod am_tiet;
pub mod ung_vien;
pub mod sua;
pub mod tach_tu;
pub mod doi_chieu;
pub mod dau_thanh;
pub mod thuc_the;
pub mod quet;
pub mod chuan_hoa;
pub mod tu_dien;
pub mod typo;
pub mod de_nham;
pub mod soat;
pub mod xep_hang;
pub mod xu_ly;
pub mod soat_sach;
pub mod kho_zip;
pub mod sach;
pub mod nhat_ky;
pub mod bao_cao;

verus! {

} // verus!
