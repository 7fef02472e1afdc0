//! Planning a batch launch.
//!
//! One `LaunchSpec` is the fully resolved invocation for one input file:
//! the input path, the derived output path, and the settings that become
//! command-line flags. `plan_launch` resolves the whole batch before
//! anything is spawned, so a bad template or a bad input path aborts the
//! batch with no process started.

use vstd::prelude::*;
use crate::digits::dec_of_int;
use crate::pathname::base_name;
use crate::pathname::file_stem_of;
use crate::pathname::has_file_name;
use crate::pathname::is_sep;
use crate::pathname::join_path;
use crate::pathname::joined;
use crate::pathname::lemma_base_name_of_joined;
use crate::pathname::lemma_stem_of_with_ext;
use crate::pathname::stem_of;
use crate::pathname::with_ext;
use crate::pathname::file_stem;
use crate::settings::Format;
use crate::settings::Waifu2xState;
use crate::settings::ext_of;
use crate::template::derive_output_name;
use crate::template::filled_tokens;
use crate::template::name_token;
use crate::template::output_file_name;
use crate::template::substituted;
use crate::text::copy_bytes;
use crate::text::has_match;

verus! {

/// One fully resolved subprocess invocation for one input file.
pub struct LaunchSpec {
    /// The input file, as selected.
    pub input: Vec<u8>,
    /// The derived output path.
    pub output: Vec<u8>,
    /// Upscale multiplier, after `-s`.
    pub scale_level: i32,
    /// Denoise level, after `-n`.
    pub denoise_level: i32,
    /// After `-j` when non-empty.
    pub thread_count: Vec<u8>,
    /// After `-g` when non-empty.
    pub gpu_id: Vec<u8>,
    /// After `-m` when non-empty.
    pub model_path: Vec<u8>,
}

/// Why a batch launch was aborted before any spawn.
#[derive(Clone, Copy, Debug, PartialEq, Eq, Structural)]
pub enum LaunchError {
    /// The filled template holds no `{name}` token.
    TemplateMissingName,
    /// The input file at this index has no usable file name.
    InvalidInputPath(usize),
}

/// A one-byte flag: a dash followed by `c`.
pub open spec fn flag(c: u8) -> Seq<u8> {
    seq![45u8, c]
}

/// The template of `st` with its value tokens filled in.
pub open spec fn filled_template(st: Waifu2xState) -> Seq<u8> {
    filled_tokens(st.filename_format@, st.scale_level as int, st.denoise_level as int, st.model_path@)
}

/// The output path planned for `input` under the settings `st`: the
/// derived file name, placed in the output directory.
pub open spec fn planned_output(st: Waifu2xState, input: Seq<u8>) -> Seq<u8> {
    joined(
        st.output_dir@,
        output_file_name(
            st.filename_format@,
            st.scale_level as int,
            st.denoise_level as int,
            st.model_path@,
            file_stem_of(input),
            ext_of(st.format),
        ),
    )
}

/// `sp` is the invocation that the settings `st` plan for `input`.
pub open spec fn matches_plan(sp: LaunchSpec, st: Waifu2xState, input: Seq<u8>) -> bool {
    &&& sp.input@ == input
    &&& sp.output@ == planned_output(st, input)
    &&& sp.scale_level == st.scale_level
    &&& sp.denoise_level == st.denoise_level
    &&& sp.thread_count@ == st.thread_count@
    &&& sp.gpu_id@ == st.gpu_id@
    &&& sp.model_path@ == st.model_path@
}

/// The argument vector of `sp`: `-i <input> -o <output> -s <scale> -n
/// <denoise>`, then `-j`, `-g` and `-m` with their values for each
/// optional setting that is non-empty.
pub open spec fn args_of(sp: LaunchSpec) -> Seq<Seq<u8>> {
    seq![
        flag(105),
        sp.input@,
        flag(111),
        sp.output@,
        flag(115),
        dec_of_int(sp.scale_level as int),
        flag(110),
        dec_of_int(sp.denoise_level as int),
    ] + (if sp.thread_count@.len() > 0 {
        seq![flag(106), sp.thread_count@]
    } else {
        Seq::<Seq<u8>>::empty()
    }) + (if sp.gpu_id@.len() > 0 {
        seq![flag(103), sp.gpu_id@]
    } else {
        Seq::<Seq<u8>>::empty()
    }) + (if sp.model_path@.len() > 0 {
        seq![flag(109), sp.model_path@]
    } else {
        Seq::<Seq<u8>>::empty()
    })
}

fn flag_vec(c: u8) -> (r: Vec<u8>)
    ensures
        r@ == flag(c),
{
    let mut v: Vec<u8> = Vec::new();
    v.push(45);
    v.push(c);
    proof {
        assert(v@ =~= flag(c));
    }
    v
}

impl LaunchSpec {
    /// The argument vector handed to the external tool.
    pub fn args(&self) -> (r: Vec<Vec<u8>>)
        ensures
            r.deep_view() == args_of(*self),
    {
        let mut args: Vec<Vec<u8>> = Vec::new();
        args.push(flag_vec(105));
        args.push(copy_bytes(&self.input));
        args.push(flag_vec(111));
        args.push(copy_bytes(&self.output));
        args.push(flag_vec(115));
        args.push(crate::digits::render_i32(self.scale_level));
        args.push(flag_vec(110));
        args.push(crate::digits::render_i32(self.denoise_level));
        if self.thread_count.len() > 0 {
            args.push(flag_vec(106));
            args.push(copy_bytes(&self.thread_count));
        }
        if self.gpu_id.len() > 0 {
            args.push(flag_vec(103));
            args.push(copy_bytes(&self.gpu_id));
        }
        if self.model_path.len() > 0 {
            args.push(flag_vec(109));
            args.push(copy_bytes(&self.model_path));
        }
        proof {
            assert(args.deep_view() =~~= args_of(*self));
        }
        args
    }
}

/// Resolve the whole batch: one `LaunchSpec` per selected file, in
/// order, under the current settings. Nothing is spawned here, so an
/// error aborts the batch before any process starts. The errors come in
/// the order the files are scanned: a file without a usable name is
/// reported first; a template without `{name}` is noticed at the first
/// file whose name is usable.
pub fn plan_launch(state: &Waifu2xState) -> (r: Result<Vec<LaunchSpec>, LaunchError>)
    ensures
        match r {
            Ok(specs) => {
                &&& state.selected_files@.len() == 0 || {
                    &&& has_match(filled_template(*state), name_token())
                    &&& forall|i: int|
                        0 <= i < state.selected_files@.len() ==> has_file_name(
                            #[trigger] state.selected_files@[i]@,
                        )
                }
                &&& specs@.len() == state.selected_files@.len()
                &&& forall|i: int|
                    0 <= i < specs@.len() ==> matches_plan(
                        #[trigger] specs@[i],
                        *state,
                        state.selected_files@[i]@,
                    )
            },
            Err(LaunchError::TemplateMissingName) => {
                &&& state.selected_files@.len() > 0
                &&& has_file_name(state.selected_files@[0]@)
                &&& !has_match(filled_template(*state), name_token())
            },
            Err(LaunchError::InvalidInputPath(i)) => {
                &&& i < state.selected_files@.len()
                &&& !has_file_name(state.selected_files@[i as int]@)
                &&& forall|j: int|
                    0 <= j < i ==> has_file_name(#[trigger] state.selected_files@[j]@)
                &&& i > 0 ==> has_match(filled_template(*state), name_token())
            },
        },
{
    let n: usize = state.selected_files.len();
    let ext = state.format.extension();
    let mut specs: Vec<LaunchSpec> = Vec::new();
    let mut idx: usize = 0;
    while idx < n
        invariant
            idx <= n == state.selected_files@.len() <= usize::MAX,
            ext@ == ext_of(state.format),
            forall|j: int| 0 <= j < idx ==> has_file_name(#[trigger] state.selected_files@[j]@),
            idx > 0 ==> has_match(filled_template(*state), name_token()),
            specs@.len() == idx,
            forall|i: int|
                0 <= i < idx ==> matches_plan(
                    #[trigger] specs@[i],
                    *state,
                    state.selected_files@[i]@,
                ),
        decreases n - idx,
    {
        let input = &state.selected_files[idx];
        let stem = match file_stem(input) {
            Some(stem) => stem,
            None => {
                return Err(LaunchError::InvalidInputPath(idx));
            },
        };
        let out_name = match derive_output_name(
            &state.filename_format,
            state.scale_level,
            state.denoise_level,
            &state.model_path,
            &stem,
            &ext,
        ) {
            Some(out_name) => out_name,
            None => {
                return Err(LaunchError::TemplateMissingName);
            },
        };
        let output = join_path(&state.output_dir, &out_name);
        let spec = LaunchSpec {
            input: copy_bytes(input),
            output,
            scale_level: state.scale_level,
            denoise_level: state.denoise_level,
            thread_count: copy_bytes(&state.thread_count),
            gpu_id: copy_bytes(&state.gpu_id),
            model_path: copy_bytes(&state.model_path),
        };
        specs.push(spec);
        idx = idx + 1;
    }
    Ok(specs)
}

/// The derived output path keeps the derived name intact: its base name
/// is the filled template with the stem substituted (extension forced),
/// and its stem is the substituted text up to its last dot — whatever
/// the output directory. This needs the substituted text to hold no
/// path separator: a separator inside a stem or a template would be
/// joined into the path as a directory break instead.
pub proof fn lemma_planned_name_survives(st: Waifu2xState, input: Seq<u8>)
    requires
        has_match(filled_template(st), name_token()),
        file_stem_of(input).len() > 0,
        forall|i: int|
            0 <= i < substituted(filled_template(st), file_stem_of(input)).len() ==> !is_sep(
                #[trigger] substituted(filled_template(st), file_stem_of(input))[i],
            ),
    ensures
        base_name(planned_output(st, input)) == with_ext(
            substituted(filled_template(st), file_stem_of(input)),
            ext_of(st.format),
        ),
        file_stem_of(planned_output(st, input)) == stem_of(
            substituted(filled_template(st), file_stem_of(input)),
        ),
{
    let f = filled_template(st);
    let stem = file_stem_of(input);
    let sub = substituted(f, stem);
    let ext = ext_of(st.format);
    let name = with_ext(sub, ext);
    crate::template::lemma_first_match_valid(f, name_token());
    assert(sub.len() > 0);
    assert forall|i: int| 0 <= i < ext.len() implies !is_sep(#[trigger] ext[i]) && ext[i] != 46 by {
        match st.format {
            Format::Png => {},
            Format::Jpg => {},
            Format::Webp => {},
        }
    }
    assert forall|i: int| 0 <= i < name.len() implies !is_sep(#[trigger] name[i]) by {
        if i < stem_of(sub).len() {
            crate::pathname::lemma_last_dot_range(sub);
            assert(stem_of(sub)[i] == sub[i]);
        } else if i == stem_of(sub).len() {
            assert(name[i] == 46);
        } else {
            assert(name[i] == ext[i - stem_of(sub).len() - 1]);
        }
    }
    lemma_base_name_of_joined(st.output_dir@, name);
    lemma_stem_of_with_ext(sub, ext);
}

} // verus!
