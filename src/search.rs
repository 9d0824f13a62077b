//! Searching the stored records by keyword.
use vstd::prelude::*;
use vstd::string::{StrSliceExecFns, StringExecFns};
use crate::parser::{trim, trimmed};

verus! {

/// The `LIKE` pattern that finds records whose message holds `keyword`, or
/// `None` when the keyword is blank and every record is wanted.
pub fn search_pattern(keyword: &str) -> (r: Option<String>)
    ensures
        r is None <==> trimmed(keyword@).len() == 0,
        r matches Some(p) ==> p@ == seq!['%'] + keyword@ + seq!['%'],
{
    proof {
        reveal_strlit("%");
    }
    let t = trim(keyword);
    if t.as_str().unicode_len() == 0 {
        None
    } else {
        let mut p = String::from_str("%");
        p.append(keyword);
        p.append("%");
        assert(p@ =~= seq!['%'] + keyword@ + seq!['%']);
        Some(p)
    }
}

} // verus!
