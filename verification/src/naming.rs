//! The names of the files that a sweep writes: one per regularisation
//! weight, made of the prefix of the input's file name and the weight.
use vstd::prelude::*;
use vstd::string::*;

verus! {

/// The place of the first `.` of `name` at or after `from`, and the length
/// of `name` where there is none.
pub open spec fn first_dot_from(name: Seq<char>, from: int) -> int
    decreases name.len() - from,
{
    if from < 0 || from >= name.len() {
        name.len() as int
    } else if name[from] == '.' {
        from
    } else {
        first_dot_from(name, from + 1)
    }
}

/// The prefix of a file name: what stands before its first `.`, where a
/// `.` that opens the name does not count. A name without such a `.` is
/// its own prefix.
pub open spec fn spec_file_prefix(name: Seq<char>) -> Seq<char> {
    name.subrange(0, first_dot_from(name, 1))
}

/// The name of the file written for one weight: the prefix of the input's
/// file name, or `img` for an input without a file name, then
/// `_lambda_=_`, the weight as text, and `.png`.
pub open spec fn spec_output_file_name(file_name: Option<Seq<char>>, lambda_text: Seq<char>) -> Seq<
    char,
> {
    let stem = match file_name {
        Some(name) => spec_file_prefix(name),
        None => "img"@,
    };
    stem + "_lambda_=_"@ + lambda_text + ".png"@
}

/// The first `.` at or after `from` lies between `from` and the end, no `.`
/// stands before it, and a `.` stands at it unless it is the end.
proof fn lemma_first_dot_from(name: Seq<char>, from: int)
    requires
        0 <= from <= name.len(),
    ensures
        from <= first_dot_from(name, from) <= name.len(),
        forall|i: int| from <= i < first_dot_from(name, from) ==> name[i] != '.',
        first_dot_from(name, from) < name.len() ==> name[first_dot_from(name, from)] == '.',
    decreases name.len() - from,
{
    if from < name.len() && name[from] != '.' {
        lemma_first_dot_from(name, from + 1);
    }
}

/// Returns the prefix of a file name: what stands before its first `.`,
/// where a `.` that opens the name does not count.
pub fn file_prefix(name: &str) -> (r: &str)
    ensures
        r@ == spec_file_prefix(name@),
        r@.len() <= name@.len(),
        r@ == name@.subrange(0, r@.len() as int),
        forall|i: int| 1 <= i < r@.len() ==> r@[i] != '.',
        r@.len() < name@.len() ==> r@.len() >= 1 && name@[r@.len() as int] == '.',
{
    let len = name.unicode_len();
    let mut cut: usize = 1;
    if len == 0 {
        assert(name@.subrange(0, 0) =~= name@);
        return name;
    }
    proof {
        lemma_first_dot_from(name@, 1);
    }
    while cut < len && name.get_char(cut) != '.'
        invariant
            len == name@.len(),
            1 <= cut <= len,
            first_dot_from(name@, 1) == first_dot_from(name@, cut as int),
        decreases len - cut,
    {
        cut = cut + 1;
    }
    name.substring_char(0, cut)
}

/// Returns the name of the file written for the weight whose text is
/// `lambda_text`, for an input whose file name is `file_name`.
pub fn output_file_name(file_name: Option<&str>, lambda_text: &str) -> (r: String)
    ensures
        r@ == spec_output_file_name(
            match file_name {
                Some(name) => Some(name@),
                None => None,
            },
            lambda_text@,
        ),
{
    let stem = match file_name {
        Some(name) => file_prefix(name),
        None => "img",
    };
    let mut out = String::from_str(stem);
    out.append("_lambda_=_");
    out.append(lambda_text);
    out.append(".png");
    out
}

} // verus!
