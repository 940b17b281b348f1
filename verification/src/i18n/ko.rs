//! Korean user-facing strings.

use vstd::prelude::*;

verus! {

/// The Korean text table: unknown keys give the empty string.
pub open spec fn spec_get_text(key: Seq<char>) -> Seq<char> {
    if key == "title_viewer"@ {
        "마크다운 뷰어"@
    } else if key == "title_raw"@ {
        "원본 마크다운"@
    } else if key == "title_directory"@ {
        "마크다운 디렉토리"@
    } else if key == "directory_label"@ {
        "마크다운 파일 목록"@
    } else if key == "directory_path"@ {
        "디렉토리"@
    } else if key == "no_files"@ {
        "이 디렉토리에서 마크다운 파일을 찾을 수 없습니다."@
    } else if key == "folders_label"@ {
        "폴더"@
    } else if key == "files_heading"@ {
        "마크다운 파일"@
    } else if key == "breadcrumb_root"@ {
        "홈"@
    } else if key == "back_to_parent"@ {
        "상위 폴더로 돌아가기"@
    } else if key == "error_invalid_mode"@ {
        "오류: 잘못된 모드"@
    } else if key == "error_not_found"@ {
        "404 - 파일을 찾을 수 없습니다"@
    } else if key == "error_reading_file"@ {
        "파일 읽기 오류"@
    } else if key == "upload_title"@ {
        "마크다운 파일 추가"@
    } else if key == "upload_instructions"@ {
        "마크다운 파일을 끌어다 놓거나 파일 찾기를 클릭하세요."@
    } else if key == "upload_browse"@ {
        "파일 선택"@
    } else if key == "upload_success"@ {
        "업로드 완료! 파일을 불러오는 중..."@
    } else if key == "upload_error"@ {
        "파일 업로드에 실패했습니다."@
    } else if key == "upload_invalid_type"@ {
        "md 확장자 파일만 지원됩니다."@
    } else if key == "upload_uploading"@ {
        "업로드 중..."@
    } else {
        ""@
    }
}

/// Look a key up in the Korean text table.
pub fn get_text(key: &str) -> (r: &'static str)
    ensures
        r@ == spec_get_text(key@),
{
    if crate::strings::str_eq(key, "title_viewer") {
        "마크다운 뷰어"
    } else if crate::strings::str_eq(key, "title_raw") {
        "원본 마크다운"
    } else if crate::strings::str_eq(key, "title_directory") {
        "마크다운 디렉토리"
    } else if crate::strings::str_eq(key, "directory_label") {
        "마크다운 파일 목록"
    } else if crate::strings::str_eq(key, "directory_path") {
        "디렉토리"
    } else if crate::strings::str_eq(key, "no_files") {
        "이 디렉토리에서 마크다운 파일을 찾을 수 없습니다."
    } else if crate::strings::str_eq(key, "folders_label") {
        "폴더"
    } else if crate::strings::str_eq(key, "files_heading") {
        "마크다운 파일"
    } else if crate::strings::str_eq(key, "breadcrumb_root") {
        "홈"
    } else if crate::strings::str_eq(key, "back_to_parent") {
        "상위 폴더로 돌아가기"
    } else if crate::strings::str_eq(key, "error_invalid_mode") {
        "오류: 잘못된 모드"
    } else if crate::strings::str_eq(key, "error_not_found") {
        "404 - 파일을 찾을 수 없습니다"
    } else if crate::strings::str_eq(key, "error_reading_file") {
        "파일 읽기 오류"
    } else if crate::strings::str_eq(key, "upload_title") {
        "마크다운 파일 추가"
    } else if crate::strings::str_eq(key, "upload_instructions") {
        "마크다운 파일을 끌어다 놓거나 파일 찾기를 클릭하세요."
    } else if crate::strings::str_eq(key, "upload_browse") {
        "파일 선택"
    } else if crate::strings::str_eq(key, "upload_success") {
        "업로드 완료! 파일을 불러오는 중..."
    } else if crate::strings::str_eq(key, "upload_error") {
        "파일 업로드에 실패했습니다."
    } else if crate::strings::str_eq(key, "upload_invalid_type") {
        "md 확장자 파일만 지원됩니다."
    } else if crate::strings::str_eq(key, "upload_uploading") {
        "업로드 중..."
    } else {
        ""
    }
}

} // verus!
