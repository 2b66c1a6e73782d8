//! Mức của các dòng nhật ký mà tầng xử lý gửi về giao diện.
use vstd::prelude::*;

verus! {

/// Mức của một dòng nhật ký. Giao diện lọc và tô màu theo đây.
#[derive(Debug, Clone, Copy, PartialEq, Eq, Structural, PartialOrd, Ord)]
pub enum Muc {
    /// Từng chỗ sửa một. Rất nhiều — mặc định ẩn.
    ChiTiet,
    /// Mốc của một giai đoạn: mở sách xong, nạp mô hình xong, ghi file xong.
    Buoc,
    /// Có chuyện đáng để ý nhưng không dừng được việc.
    CanhBao,
}

/// Tiền tố đứng đầu dòng nhật ký của từng mức.
pub open spec fn dau_spec(m: Muc) -> Seq<char> {
    match m {
        Muc::ChiTiet => "  "@,
        Muc::Buoc => "▸ "@,
        Muc::CanhBao => "! "@,
    }
}

impl Muc {
    /// Tiền tố đứng đầu dòng nhật ký.
    pub fn dau(self) -> (r: &'static str)
        ensures
            r@ == dau_spec(self),
    {
        match self {
            Muc::ChiTiet => "  ",
            Muc::Buoc => "▸ ",
            Muc::CanhBao => "! ",
        }
    }
}

} // verus!
