pub mod lookup;
pub mod text;

pub use lookup::StatusCode;
pub use lookup::get_codes_by_code;
pub use lookup::get_codes_by_keyword;
pub use lookup::list_all;
