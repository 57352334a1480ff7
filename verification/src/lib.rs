use vstd::prelude::*;

pub mod agl;
pub mod agl_list;
pub mod dpxutil;
pub mod font_inst;
pub mod font_mgr;
pub mod font_mgr_fc;
pub mod ot_math;
pub mod pdfparse;
pub mod specials;
pub mod text;

verus! {

} // verus!
