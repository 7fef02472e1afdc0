//! The in-memory settings record and the widget-label decoders.
//!
//! The record mirrors what the form collects: the selected input files,
//! the output directory, the numeric knobs, the output format and the
//! filename template. The decoders turn the text of a clicked radio
//! button into the setting it stands for.

use vstd::prelude::*;
use crate::digits::is_negative;
use crate::digits::is_signed_numeral;
use crate::digits::parse_u32;
use crate::digits::signed_body;
use crate::digits::signed_val;
use crate::template::name_token;
use crate::template::scale_token;
use crate::template::denoise_token;

verus! {

/// The selected output image format.
#[derive(Clone, Copy, Debug, PartialEq, Eq, Structural)]
pub enum Format {
    Png,
    Jpg,
    Webp,
}

/// The extension the format writes, without the dot.
pub open spec fn ext_of(f: Format) -> Seq<u8> {
    match f {
        Format::Png => seq![112u8, 110u8, 103u8],
        Format::Jpg => seq![106u8, 112u8, 103u8],
        Format::Webp => seq![119u8, 101u8, 98u8, 112u8],
    }
}

/// The label of the format's radio button.
pub open spec fn label_of(f: Format) -> Seq<u8> {
    match f {
        Format::Png => seq![80u8, 78u8, 71u8],
        Format::Jpg => seq![74u8, 80u8, 71u8],
        Format::Webp => seq![87u8, 101u8, 98u8, 80u8],
    }
}

impl Format {
    /// The extension the format writes, without the dot.
    pub fn extension(&self) -> (r: Vec<u8>)
        ensures
            r@ == ext_of(*self),
    {
        let mut v: Vec<u8> = Vec::new();
        match self {
            Format::Png => {
                v.push(112);
                v.push(110);
                v.push(103);
            },
            Format::Jpg => {
                v.push(106);
                v.push(112);
                v.push(103);
            },
            Format::Webp => {
                v.push(119);
                v.push(101);
                v.push(98);
                v.push(112);
            },
        }
        proof {
            assert(v@ =~= ext_of(*self));
        }
        v
    }

    /// The format whose radio-button label is `label`, if any.
    pub fn from_label(label: &Vec<u8>) -> (r: Option<Format>)
        ensures
            match r {
                Some(f) => label@ == label_of(f),
                None => forall|f: Format| label@ != label_of(f),
            },
    {
        if label.len() == 3 && label[0] == 80 && label[1] == 78 && label[2] == 71 {
            proof {
                assert(label@ =~= label_of(Format::Png));
            }
            Some(Format::Png)
        } else if label.len() == 3 && label[0] == 74 && label[1] == 80 && label[2] == 71 {
            proof {
                assert(label@ =~= label_of(Format::Jpg));
            }
            Some(Format::Jpg)
        } else if label.len() == 4 && label[0] == 87 && label[1] == 101 && label[2] == 98
            && label[3] == 80 {
            proof {
                assert(label@ =~= label_of(Format::Webp));
            }
            Some(Format::Webp)
        } else {
            proof {
                assert forall|f: Format| label@ != label_of(f) by {
                    if label@ == label_of(f) {
                        match f {
                            Format::Png => {
                                assert(label@.len() == 3 && label@[0] == 80 && label@[1] == 78
                                    && label@[2] == 71);
                            },
                            Format::Jpg => {
                                assert(label@.len() == 3 && label@[0] == 74 && label@[1] == 80
                                    && label@[2] == 71);
                            },
                            Format::Webp => {
                                assert(label@.len() == 4 && label@[0] == 87 && label@[1] == 101
                                    && label@[2] == 98 && label@[3] == 80);
                            },
                        }
                    }
                }
            }
            None
        }
    }
}

impl Default for Format {
    /// The form opens with PNG checked.
    fn default() -> (r: Format)
        ensures
            r == Format::Png,
    {
        Format::Png
    }
}

/// The template the filename field starts with: `{name}_{scale}x_{denoise}n`.
pub open spec fn default_template() -> Seq<u8> {
    name_token() + seq![95u8] + scale_token() + seq![120u8, 95u8] + denoise_token() + seq![110u8]
}

/// Everything the form collects, as one record.
pub struct Waifu2xState {
    /// Paths of the files picked in the open dialog.
    pub selected_files: Vec<Vec<u8>>,
    /// Directory picked in the save dialog.
    pub output_dir: Vec<u8>,
    /// Upscale multiplier handed to the tool.
    pub scale_level: i32,
    /// Denoise strength; -1 disables denoising.
    pub denoise_level: i32,
    /// Whether TTA mode is ticked.
    pub tta_mode: bool,
    /// Selected output image format.
    pub format: Format,
    /// Text of the thread-count field; empty leaves the tool's default.
    pub thread_count: Vec<u8>,
    /// Text of the GPU-id field; empty leaves the tool's default.
    pub gpu_id: Vec<u8>,
    /// Text of the model-path field; empty leaves the tool's default.
    pub model_path: Vec<u8>,
    /// The output filename template.
    pub filename_format: Vec<u8>,
}

impl Default for Waifu2xState {
    /// The state the form opens with.
    fn default() -> (r: Waifu2xState)
        ensures
            r.selected_files@ == Seq::<Vec<u8>>::empty(),
            r.output_dir@ == Seq::<u8>::empty(),
            r.scale_level == 1,
            r.denoise_level == -1,
            r.tta_mode == false,
            r.format == Format::Png,
            r.thread_count@ == Seq::<u8>::empty(),
            r.gpu_id@ == Seq::<u8>::empty(),
            r.model_path@ == Seq::<u8>::empty(),
            r.filename_format@ == default_template(),
    {
        let mut template: Vec<u8> = Vec::new();
        template.push(123);
        template.push(110);
        template.push(97);
        template.push(109);
        template.push(101);
        template.push(125);
        template.push(95);
        template.push(123);
        template.push(115);
        template.push(99);
        template.push(97);
        template.push(108);
        template.push(101);
        template.push(125);
        template.push(120);
        template.push(95);
        template.push(123);
        template.push(100);
        template.push(101);
        template.push(110);
        template.push(111);
        template.push(105);
        template.push(115);
        template.push(101);
        template.push(125);
        template.push(110);
        proof {
            assert(template@ =~= default_template());
        }
        Waifu2xState {
            selected_files: Vec::new(),
            output_dir: Vec::new(),
            scale_level: 1,
            denoise_level: -1,
            tta_mode: false,
            format: Format::Png,
            thread_count: Vec::new(),
            gpu_id: Vec::new(),
            model_path: Vec::new(),
            filename_format: template,
        }
    }
}

impl Waifu2xState {
    /// Record a new denoise level.
    pub fn set_denoise_level(&mut self, level: i32)
        ensures
            *final(self) == (Waifu2xState { denoise_level: level, ..*old(self) }),
    {
        self.denoise_level = level;
    }

    /// Record a new scale level.
    pub fn set_scale_level(&mut self, level: i32)
        ensures
            *final(self) == (Waifu2xState { scale_level: level, ..*old(self) }),
    {
        self.scale_level = level;
    }
}

/// The denoise level a radio label stands for: `None` disables (-1), the
/// `Level <n>` labels end in their digit.
pub fn denoise_level_of_label(label: &Vec<u8>) -> (r: i32)
    requires
        label@.len() > 0,
        48 <= label@[label@.len() - 1],
    ensures
        r == if label@[label@.len() - 1] == 101 {
            -1
        } else {
            label@[label@.len() - 1] - 48
        },
{
    let last = label[label.len() - 1];
    if last == 101 {
        -1
    } else {
        (last - 48) as i32
    }
}

/// The label with trailing `x` bytes removed.
pub open spec fn trimmed_x(s: Seq<u8>) -> Seq<u8>
    decreases s.len(),
{
    if s.len() > 0 && s[s.len() - 1] == 120 {
        trimmed_x(s.take(s.len() - 1))
    } else {
        s
    }
}

/// The scale level an upscale radio label stands for: the number before
/// its trailing `x`, sign included. Fails when what remains is not a
/// signed decimal numeral, or does not fit an `i32`.
pub fn scale_level_of_label(label: &Vec<u8>) -> (r: Option<i32>)
    ensures
        match r {
            Some(v) => is_signed_numeral(trimmed_x(label@)) && v as int == signed_val(
                trimmed_x(label@),
            ),
            None => !is_signed_numeral(trimmed_x(label@)) || signed_val(trimmed_x(label@))
                > i32::MAX || signed_val(trimmed_x(label@)) < i32::MIN,
        },
{
    let mut end: usize = label.len();
    proof {
        assert(label@.take(end as int) =~= label@);
    }
    while end > 0 && label[end - 1] == 120
        invariant
            end <= label@.len() <= usize::MAX,
            trimmed_x(label@) == trimmed_x(label@.take(end as int)),
        decreases end,
    {
        proof {
            assert(label@.take(end as int)[end - 1] == label@[end - 1]);
            assert(label@.take(end as int).take(end - 1) =~= label@.take(end - 1));
        }
        end = end - 1;
    }
    proof {
        if end > 0 {
            assert(label@.take(end as int)[end - 1] == label@[end - 1]);
        }
        assert(trimmed_x(label@.take(end as int)) == label@.take(end as int));
    }
    let mut trimmed: Vec<u8> = Vec::new();
    crate::text::extend_range(&mut trimmed, label, 0, end);
    proof {
        assert(trimmed@ =~= label@.take(end as int));
    }
    let signed: bool = trimmed.len() > 0 && (trimmed[0] == 43 || trimmed[0] == 45);
    let neg: bool = trimmed.len() > 0 && trimmed[0] == 45;
    let start: usize = if signed {
        1
    } else {
        0
    };
    let mut body: Vec<u8> = Vec::new();
    crate::text::extend_range(&mut body, &trimmed, start, trimmed.len());
    proof {
        assert(body@ =~= signed_body(trimmed@));
        assert(neg == is_negative(trimmed@));
    }
    match parse_u32(&body) {
        Some(v) => {
            if neg {
                if v <= 0x8000_0000 {
                    let w: i64 = -(v as i64);
                    Some(w as i32)
                } else {
                    None
                }
            } else {
                if v <= 0x7fff_ffff {
                    Some(v as i32)
                } else {
                    None
                }
            }
        },
        None => None,
    }
}

/// The first `k` of the selected paths joined with `;`.
pub open spec fn preview_join(paths: Seq<Seq<u8>>, k: int) -> Seq<u8>
    decreases k,
{
    if k <= 0 {
        Seq::empty()
    } else if k == 1 {
        paths[0]
    } else {
        preview_join(paths, k - 1) + seq![59u8] + paths[k - 1]
    }
}

/// What the input-path field shows after files are picked: the first ten
/// selected paths joined with `;`.
pub open spec fn preview_of(paths: Seq<Seq<u8>>) -> Seq<u8> {
    if paths.len() <= 10 {
        preview_join(paths, paths.len() as int)
    } else {
        preview_join(paths, 10)
    }
}

/// Join the first ten selected paths with `;` for display.
pub fn preview_list(paths: &Vec<Vec<u8>>) -> (r: Vec<u8>)
    ensures
        r@ == preview_of(paths.deep_view()),
{
    let count: usize = if paths.len() <= 10 {
        paths.len()
    } else {
        10
    };
    let mut out: Vec<u8> = Vec::new();
    let mut i: usize = 0;
    while i < count
        invariant
            i <= count <= paths@.len() <= usize::MAX,
            count <= 10 || count <= paths@.len(),
            count == if paths@.len() <= 10 {
                paths@.len() as int
            } else {
                10
            },
            out@ == preview_join(paths.deep_view(), i as int),
        decreases count - i,
    {
        proof {
            assert(paths.deep_view()[i as int] =~= paths@[i as int]@);
        }
        if i > 0 {
            out.push(59);
        }
        crate::text::extend_bytes(&mut out, &paths[i]);
        i = i + 1;
        proof {
            assert(out@ =~= preview_join(paths.deep_view(), i as int));
        }
    }
    out
}

} // verus!
