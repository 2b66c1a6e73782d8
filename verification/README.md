# chinhta

Bộ sửa chính tả tiếng Việt cho sách EPUB, viết bằng Verus: phần lõi (tách tiếng,
cấu tạo âm tiết, sinh và xếp hạng ứng viên, tách chữ dính, chuẩn hoá Unicode và
dấu câu, dấu thanh, cặp dễ nhầm, quét XHTML, đối chiếu và vá byte, hai lượt trên
cả cuốn sách khi không có mô hình, đọc và ghi lại file zip của EPUB, báo cáo) nằm
trong `src/` và được chứng minh theo hợp đồng `requires`/`ensures`. Các lời gọi
vào crate `zip` nằm trong `src/kho_zip.rs`, mỗi lời gọi có hợp đồng riêng.

- `src/` — thư viện đã kiểm chứng. Mỗi mô-đun mô tả dữ liệu bằng hàm `spec`
  (`Seq`, `Map`, `Set`) và phát biểu kết quả của từng hàm trên mô hình ấy.
- `tests/` — kiểm thử chạy thật trên thư viện đã biên dịch.
- `app/` — chương trình dòng lệnh `vsc`: đọc/ghi file trên đĩa, tham số, nhật ký,
  cài đặt (serde), và vòng hỏi mô hình ngôn ngữ (so điểm số thực); không có mô
  hình thì nó gọi thẳng `soat_sach::soat_sach`.

Dữ liệu tra cứu (`am-tiet.txt`, `tu-ghep.txt`, `de-nham.txt`, `typo.txt`) được nạp
lúc chạy từ thư mục `du-lieu/` (hoặc `-d`, hoặc biến `VSC_DU_LIEU`).
