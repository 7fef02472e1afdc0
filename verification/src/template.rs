//! The output filename template.
//!
//! A template is user text holding the tokens `{scale}`, `{denoise}`,
//! `{model}` and `{name}`. The first three are replaced everywhere by the
//! current settings; then the first `{name}` is replaced by the input
//! file's stem, and the extension of the selected output format is forced
//! onto the result. A template without a `{name}` token is rejected.

use vstd::prelude::*;
use crate::digits::dec_of_int;
use crate::digits::render_i32;
use crate::pathname::with_ext;
use crate::pathname::force_extension;
use crate::text::has_match;
use crate::text::is_match_at;
use crate::text::replaced;
use crate::text::replace_all;
use crate::text::find_first;
use crate::text::spliced;
use crate::text::splice;

verus! {

/// The bytes of `{name}`.
pub open spec fn name_token() -> Seq<u8> {
    seq![123u8, 110u8, 97u8, 109u8, 101u8, 125u8]
}

/// The bytes of `{scale}`.
pub open spec fn scale_token() -> Seq<u8> {
    seq![123u8, 115u8, 99u8, 97u8, 108u8, 101u8, 125u8]
}

/// The bytes of `{denoise}`.
pub open spec fn denoise_token() -> Seq<u8> {
    seq![123u8, 100u8, 101u8, 110u8, 111u8, 105u8, 115u8, 101u8, 125u8]
}

/// The bytes of `{model}`.
pub open spec fn model_token() -> Seq<u8> {
    seq![123u8, 109u8, 111u8, 100u8, 101u8, 108u8, 125u8]
}

fn name_token_vec() -> (r: Vec<u8>)
    ensures
        r@ == name_token(),
{
    let mut v: Vec<u8> = Vec::new();
    v.push(123);
    v.push(110);
    v.push(97);
    v.push(109);
    v.push(101);
    v.push(125);
    proof {
        assert(v@ =~= name_token());
    }
    v
}

fn scale_token_vec() -> (r: Vec<u8>)
    ensures
        r@ == scale_token(),
{
    let mut v: Vec<u8> = Vec::new();
    v.push(123);
    v.push(115);
    v.push(99);
    v.push(97);
    v.push(108);
    v.push(101);
    v.push(125);
    proof {
        assert(v@ =~= scale_token());
    }
    v
}

fn denoise_token_vec() -> (r: Vec<u8>)
    ensures
        r@ == denoise_token(),
{
    let mut v: Vec<u8> = Vec::new();
    v.push(123);
    v.push(100);
    v.push(101);
    v.push(110);
    v.push(111);
    v.push(105);
    v.push(115);
    v.push(101);
    v.push(125);
    proof {
        assert(v@ =~= denoise_token());
    }
    v
}

fn model_token_vec() -> (r: Vec<u8>)
    ensures
        r@ == model_token(),
{
    let mut v: Vec<u8> = Vec::new();
    v.push(123);
    v.push(109);
    v.push(111);
    v.push(100);
    v.push(101);
    v.push(108);
    v.push(125);
    proof {
        assert(v@ =~= model_token());
    }
    v
}

/// The template with `{scale}`, `{denoise}` and `{model}` replaced
/// everywhere by their current values.
pub open spec fn filled_tokens(t: Seq<u8>, scale: int, denoise: int, model: Seq<u8>) -> Seq<u8> {
    replaced(
        replaced(replaced(t, scale_token(), dec_of_int(scale)), denoise_token(), dec_of_int(denoise)),
        model_token(),
        model,
    )
}

/// Index of the leftmost occurrence of `pat` in `s`, or -1.
pub open spec fn first_match(s: Seq<u8>, pat: Seq<u8>) -> int
    decreases s.len(),
{
    if is_match_at(s, pat, 0) {
        0
    } else if s.len() == 0 {
        -1
    } else if first_match(s.skip(1), pat) < 0 {
        -1
    } else {
        first_match(s.skip(1), pat) + 1
    }
}

/// A witness for the leftmost match pins `first_match` down.
pub proof fn lemma_first_match_at(s: Seq<u8>, pat: Seq<u8>, i: int)
    requires
        is_match_at(s, pat, i),
        forall|j: int| 0 <= j < i ==> !is_match_at(s, pat, j),
    ensures
        first_match(s, pat) == i,
    decreases i,
{
    if i == 0 {
    } else {
        assert(!is_match_at(s, pat, 0));
        assert(s.len() > 0);
        let s1 = s.skip(1);
        assert(s1.subrange(i - 1, i - 1 + pat.len() as int) =~= s.subrange(i, i + pat.len() as int));
        assert(is_match_at(s1, pat, i - 1));
        assert forall|j: int| 0 <= j < i - 1 implies !is_match_at(s1, pat, j) by {
            if is_match_at(s1, pat, j) {
                assert(s.subrange(j + 1, j + 1 + pat.len() as int) =~= s1.subrange(
                    j,
                    j + pat.len() as int,
                ));
                assert(is_match_at(s, pat, j + 1));
            }
        }
        lemma_first_match_at(s1, pat, i - 1);
    }
}

/// Where a match exists, `first_match` points at one.
pub proof fn lemma_first_match_valid(s: Seq<u8>, pat: Seq<u8>)
    requires
        has_match(s, pat),
    ensures
        0 <= first_match(s, pat),
        is_match_at(s, pat, first_match(s, pat)),
    decreases s.len(),
{
    if is_match_at(s, pat, 0) {
    } else {
        let i = choose|i: int| is_match_at(s, pat, i);
        assert(i > 0);
        let s1 = s.skip(1);
        assert(s1.subrange(i - 1, i - 1 + pat.len() as int) =~= s.subrange(i, i + pat.len() as int));
        assert(is_match_at(s1, pat, i - 1));
        lemma_first_match_valid(s1, pat);
        let r = first_match(s1, pat);
        assert(s.subrange(r + 1, r + 1 + pat.len() as int) =~= s1.subrange(r, r + pat.len() as int));
        assert(is_match_at(s, pat, r + 1));
    }
}

/// The filled template with its first `{name}` replaced by `stem`.
/// Meaningful only when the filled template holds a `{name}` token.
pub open spec fn substituted(f: Seq<u8>, stem: Seq<u8>) -> Seq<u8> {
    spliced(f, first_match(f, name_token()), name_token().len() as int, stem)
}

/// The complete derived output file name: tokens filled, `{name}`
/// replaced by the stem, extension forced to `ext`.
pub open spec fn output_file_name(
    t: Seq<u8>,
    scale: int,
    denoise: int,
    model: Seq<u8>,
    stem: Seq<u8>,
    ext: Seq<u8>,
) -> Seq<u8> {
    with_ext(substituted(filled_tokens(t, scale, denoise, model), stem), ext)
}

/// Fill the value tokens of `template` and substitute `stem` for the
/// first `{name}`. Returns `None` exactly when the filled template holds
/// no `{name}` token.
pub fn derive_output_name(
    template: &Vec<u8>,
    scale: i32,
    denoise: i32,
    model: &Vec<u8>,
    stem: &Vec<u8>,
    ext: &Vec<u8>,
) -> (r: Option<Vec<u8>>)
    ensures
        match r {
            Some(out) => has_match(
                filled_tokens(template@, scale as int, denoise as int, model@),
                name_token(),
            ) && out@ == output_file_name(
                template@,
                scale as int,
                denoise as int,
                model@,
                stem@,
                ext@,
            ),
            None => !has_match(
                filled_tokens(template@, scale as int, denoise as int, model@),
                name_token(),
            ),
        },
{
    let scale_text = render_i32(scale);
    let denoise_text = render_i32(denoise);
    let t1 = replace_all(template, &scale_token_vec(), &scale_text);
    let t2 = replace_all(&t1, &denoise_token_vec(), &denoise_text);
    let filled = replace_all(&t2, &model_token_vec(), model);
    let name_tok = name_token_vec();
    match find_first(&filled, &name_tok) {
        Some(i) => {
            proof {
                lemma_first_match_at(filled@, name_token(), i as int);
            }
            let out = splice(&filled, i, name_tok.len(), stem);
            Some(force_extension(&out, ext))
        },
        None => None,
    }
}

} // verus!
