//! Law: the parts that this format can carry keep their canonical form.

use vstd::prelude::*;
use crate::convert::ConversionWarningV;
use crate::formats::google_generate_content::canonical_contents::bare;
use crate::formats::google_generate_content::canonical_turns::{block_role, part_stays, side_block, steady_part, written};
use crate::formats::google_generate_content::from_ir::Side;
use crate::formats::google_generate_content::round_trip::{plain_block, read_part};
use crate::formats::google_generate_content::round_trip_history::block_is_read;
use crate::formats::google_generate_content::types::{decode_part, PartV};
use crate::ir::{ContentBlockV, Role};
use crate::json::ObjV;

verus! {

/// A part that is read as a block which this format can carry keeps its
/// canonical form: text, images, calls, results and thoughts with data that is
/// kept, and what stays verbatim.
pub proof fn carried_part_is_steady(side: Side, p: PartV, as_text: bool)
    requires
        plain_block(block_role(side, side_block(side, p).0), side_block(side, p).1),
    ensures
        steady_part(side, p, as_text),
{
    let (t, b) = side_block(side, p);
    let role = block_role(side, t);
    assert forall|names: ObjV| #[trigger] written(b, names, as_text) is Some implies part_stays(
        side,
        written(b, names, as_text)->0,
        as_text,
    ) by {
        block_is_read(role, b, bare((Seq::empty(), names)), Seq::empty(), as_text);
        let v = written(b, names, as_text)->0;
        let q = decode_part(v)->Ok_0;
        assert(read_part(role, q, Seq::empty(), Seq::empty()) == (b, Seq::<ConversionWarningV>::empty()));
        assert(side_block(side, q) == (t, b));
        assert forall|more: ObjV| #[trigger] written(b, more, as_text) == Some(v) by {
            names_do_not_matter(role, b, names, more, as_text);
        }
    }
}

/// A block that this format can carry is written the same, whatever calls came
/// before.
proof fn names_do_not_matter(role: Role, b: ContentBlockV, names: ObjV, more: ObjV, as_text: bool)
    requires
        plain_block(role, b),
        written(b, names, as_text) is Some,
    ensures
        written(b, more, as_text) == written(b, names, as_text),
{
}

} // verus!
