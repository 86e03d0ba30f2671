//! Model formats and benchmark inputs.
use vstd::prelude::*;

use crate::float::F32;
use crate::text;

verus! {

broadcast use vstd::string::group_string_axioms;

/// Model format inferred from the file extension.
#[derive(Clone, Copy, Debug, PartialEq, Eq, Structural)]
pub enum ModelFormat {
    Onnx,
    Gguf,
    TorchScript,
    SafeTensors,
    Unknown,
}

/// The index of the last `c` in `s`, or -1 where there is none.
pub open spec fn last_index(s: Seq<char>, c: char) -> int
    decreases s.len(),
{
    if s.len() == 0 {
        -1
    } else if s.last() == c {
        s.len() - 1
    } else {
        last_index(s.drop_last(), c)
    }
}

/// Whether a component of a path is a name or a parent, not a filler.
pub open spec fn is_component(piece: Seq<char>) -> bool {
    piece.len() > 0 && piece != "."@
}

/// The last component of a path, where it has one.
pub open spec fn last_component(path: Seq<char>) -> Option<Seq<char>> {
    let parts = text::split_on(path, '/').filter(|p: Seq<char>| is_component(p));
    if parts.len() == 0 {
        None
    } else {
        Some(parts.last())
    }
}

/// The extension of a file name: what follows its last dot, unless the name
/// begins with that dot or is the parent directory.
pub open spec fn name_extension(name: Seq<char>) -> Option<Seq<char>> {
    let dot = last_index(name, '.');
    if dot <= 0 || name == ".."@ {
        None
    } else {
        Some(name.skip(dot + 1))
    }
}

/// The extension of a path.
pub open spec fn extension(path: Seq<char>) -> Option<Seq<char>> {
    match last_component(path) {
        Some(name) => name_extension(name),
        None => None,
    }
}

/// The format that an extension stands for.
pub open spec fn format_of(ext: Option<Seq<char>>) -> ModelFormat {
    match ext {
        Some(e) => if e == "onnx"@ {
            ModelFormat::Onnx
        } else if e == "gguf"@ {
            ModelFormat::Gguf
        } else if e == "pt"@ || e == "pth"@ || e == "torchscript"@ {
            ModelFormat::TorchScript
        } else if e == "safetensors"@ {
            ModelFormat::SafeTensors
        } else {
            ModelFormat::Unknown
        },
        None => ModelFormat::Unknown,
    }
}

/// The name of a format.
pub open spec fn format_name(f: ModelFormat) -> Seq<char> {
    match f {
        ModelFormat::Onnx => "ONNX"@,
        ModelFormat::Gguf => "GGUF"@,
        ModelFormat::TorchScript => "TorchScript"@,
        ModelFormat::SafeTensors => "SafeTensors"@,
        ModelFormat::Unknown => "Unknown"@,
    }
}

/// The extension of a file name.
fn extension_of_name(name: &str) -> (r: Option<String>)
    ensures
        match r {
            Some(e) => name_extension(name@) == Some(e@),
            None => name_extension(name@) is None,
        },
{
    if text::same_text(name, "..") {
        return None;
    }
    let cs = text::chars_of(name);
    let mut i: usize = cs.len();
    assert(name@.take(i as int) =~= name@);
    while i > 0
        invariant
            cs@ == name@,
            i <= cs@.len(),
            name@ != ".."@,
            last_index(name@, '.') == last_index(name@.take(i as int), '.'),
        decreases i,
    {
        let ghost head = name@.take(i as int);
        assert(head.last() == cs@[i - 1]);
        assert(head.drop_last() =~= name@.take(i - 1));
        if cs[i - 1] == '.' {
            if i == 1 {
                return None;
            }
            let e = text::text_between(&cs, i, cs.len());
            assert(e@ =~= name@.skip(i as int));
            return Some(e);
        }
        i = i - 1;
    }
    None
}

/// The last component of a path.
fn component_of_path(path: &str) -> (r: Option<String>)
    ensures
        match r {
            Some(e) => last_component(path@) == Some(e@),
            None => last_component(path@) is None,
        },
{
    let pieces = text::split_text(path, '/');
    let ghost ps = text::texts(pieces@);
    let ghost named = |p: Seq<char>| is_component(p);
    let mut i: usize = pieces.len();
    assert(ps.take(i as int) =~= ps);
    while i > 0
        invariant
            i <= pieces@.len(),
            ps == text::texts(pieces@),
            ps == text::split_on(path@, '/'),
            named == (|p: Seq<char>| is_component(p)),
            ps.filter(named) == ps.take(i as int).filter(named),
        decreases i,
    {
        proof {
            reveal(Seq::filter);
            assert(ps.take(i as int).last() == pieces@[i - 1]@);
            assert(ps.take(i as int).drop_last() =~= ps.take(i - 1));
        }
        let piece = pieces[i - 1].as_str();
        if !piece.is_empty() && !text::same_text(piece, ".") {
            return Some(pieces[i - 1].clone());
        }
        i = i - 1;
    }
    proof {
        reveal(Seq::filter);
        assert(ps.take(0).len() == 0);
    }
    None
}

impl ModelFormat {
    /// The format of the model file at a path.
    pub fn from_path(path: &str) -> (r: Self)
        ensures
            r == format_of(extension(path@)),
    {
        let ext = match component_of_path(path) {
            Some(name) => extension_of_name(name.as_str()),
            None => None,
        };
        match ext {
            Some(e) => {
                let e = e.as_str();
                if text::same_text(e, "onnx") {
                    ModelFormat::Onnx
                } else if text::same_text(e, "gguf") {
                    ModelFormat::Gguf
                } else if text::same_text(e, "pt") || text::same_text(e, "pth") || text::same_text(
                    e,
                    "torchscript",
                ) {
                    ModelFormat::TorchScript
                } else if text::same_text(e, "safetensors") {
                    ModelFormat::SafeTensors
                } else {
                    ModelFormat::Unknown
                }
            },
            None => ModelFormat::Unknown,
        }
    }

    /// The name of the format.
    pub fn as_str(self) -> (r: &'static str)
        ensures
            r@ == format_name(self),
    {
        match self {
            ModelFormat::Onnx => "ONNX",
            ModelFormat::Gguf => "GGUF",
            ModelFormat::TorchScript => "TorchScript",
            ModelFormat::SafeTensors => "SafeTensors",
            ModelFormat::Unknown => "Unknown",
        }
    }
}

/// A fixed random input reused across all runtimes and all iterations.
///
/// Using the same input eliminates variability introduced by different input
/// values, ensuring that runtime comparisons are apples-to-apples.
#[derive(Debug)]
pub struct BenchInput {
    /// Flat data in row-major order.
    pub data: Vec<F32>,
    /// Shape of the input tensor (e.g. [batch, seq_len] or [batch, C, H, W]).
    pub shape: Vec<usize>,
}

/// The number of elements of a tensor.
pub open spec fn elements(shape: Seq<usize>) -> nat
    decreases shape.len(),
{
    if shape.len() == 0 {
        1
    } else {
        elements(shape.drop_last()) * shape.last() as nat
    }
}

/// The shape of an input for a model format.
pub open spec fn default_shape(fmt: ModelFormat, batch: usize) -> Seq<usize> {
    match fmt {
        ModelFormat::Onnx | ModelFormat::TorchScript => seq![batch, 3, 224, 224],
        _ => seq![batch, 512],
    }
}

impl BenchInput {
    /// The number of elements that a shape calls for; nothing where there are too
    /// many to count.
    pub fn element_count(shape: &Vec<usize>) -> (r: Option<usize>)
        ensures
            match r {
                Some(n) => n == elements(shape@),
                None => exists|k: int|
                    0 <= k <= shape@.len() && #[trigger] elements(shape@.take(k)) > usize::MAX,
            },
    {
        let mut n: usize = 1;
        let mut i: usize = 0;
        while i < shape.len()
            invariant
                i <= shape@.len(),
                n == elements(shape@.take(i as int)),
            decreases shape.len() - i,
        {
            assert(shape@.take(i + 1).drop_last() =~= shape@.take(i as int));
            match n.checked_mul(shape[i]) {
                Some(m) => n = m,
                None => {
                    assert(elements(shape@.take(i + 1)) > usize::MAX);
                    return None;
                },
            }
            i = i + 1;
        }
        assert(shape@.take(i as int) =~= shape@);
        Some(n)
    }

    /// A default input shape for the given format and batch size.
    ///
    /// These are conservative fallback shapes used when a runtime cannot
    /// extract the real input shape from the model file.
    pub fn default_shape_for_format(fmt: ModelFormat, batch_size: u32) -> (r: Vec<usize>)
        ensures
            r@ == default_shape(fmt, batch_size as usize),
    {
        let b: usize = batch_size as usize;
        match fmt {
            // Language models: [batch, sequence_length]
            ModelFormat::Gguf => vec![b, 512],
            // Vision models: [batch, channels, height, width]
            ModelFormat::Onnx => vec![b, 3, 224, 224],
            ModelFormat::TorchScript => vec![b, 3, 224, 224],
            // General embeddings: [batch, hidden_size]
            ModelFormat::SafeTensors => vec![b, 512],
            ModelFormat::Unknown => vec![b, 512],
        }
    }
}

/// The index of the last character of a kind is one of that kind, and none follows.
pub proof fn law_last_index(s: Seq<char>, c: char)
    ensures
        -1 <= last_index(s, c) < s.len(),
        last_index(s, c) >= 0 ==> s[last_index(s, c)] == c,
        forall|i: int| last_index(s, c) < i < s.len() ==> #[trigger] s[i] != c,
    decreases s.len(),
{
    if s.len() > 0 && s.last() != c {
        law_last_index(s.drop_last(), c);
        assert forall|i: int| last_index(s, c) < i < s.len() implies #[trigger] s[i] != c by {
            if i < s.len() - 1 {
                assert(s.drop_last()[i] == s[i]);
            }
        }
    }
}

/// The extension of a name is what follows its last dot.
pub proof fn law_extension_follows_the_last_dot(stem: Seq<char>, ext: Seq<char>)
    requires
        stem.len() > 0,
        ext.len() > 0,
        !ext.contains('.'),
    ensures
        name_extension(stem + seq!['.'] + ext) == Some(ext),
{
    let name = stem + seq!['.'] + ext;
    law_last_index(name, '.');
    let dot = last_index(name, '.');
    assert(name[stem.len() as int] == '.');
    if dot > stem.len() {
        assert(name[dot] == ext[dot - stem.len() - 1]);
        assert(ext.contains('.'));
    }
    assert(name.skip(dot + 1) =~= ext);
    reveal_strlit("..");
    if name == ".."@ {
        assert(name.len() >= 3);
    }
}

/// A name without a dot, or with none but its first character, has no extension.
pub proof fn law_names_without_extension(name: Seq<char>)
    requires
        forall|i: int| 0 < i < name.len() ==> #[trigger] name[i] != '.',
    ensures
        name_extension(name) is None,
{
    law_last_index(name, '.');
}

/// The formats go by five kinds of extensions, in lower case; every other file is
/// unknown.
pub proof fn law_formats_by_extension(ext: Seq<char>)
    ensures
        format_of(Some("onnx"@)) == ModelFormat::Onnx,
        format_of(Some("gguf"@)) == ModelFormat::Gguf,
        format_of(Some("pt"@)) == ModelFormat::TorchScript,
        format_of(Some("pth"@)) == ModelFormat::TorchScript,
        format_of(Some("torchscript"@)) == ModelFormat::TorchScript,
        format_of(Some("safetensors"@)) == ModelFormat::SafeTensors,
        format_of(None) == ModelFormat::Unknown,
        format_of(Some(ext)) == ModelFormat::Unknown <==> ext != "onnx"@ && ext != "gguf"@ && ext
            != "pt"@ && ext != "pth"@ && ext != "torchscript"@ && ext != "safetensors"@,
{
    reveal_strlit("onnx");
    reveal_strlit("gguf");
    reveal_strlit("pt");
    reveal_strlit("pth");
    reveal_strlit("torchscript");
    reveal_strlit("safetensors");
    assert("onnx"@[0] != "gguf"@[0]);
    assert("torchscript"@[0] != "safetensors"@[0]);
}

/// An input has the batch as its first dimension, and for each of its rows an image of
/// 3 by 224 by 224 for vision formats, or 512 numbers.
pub proof fn law_inputs_have_a_row_per_item(fmt: ModelFormat, batch: usize)
    ensures
        default_shape(fmt, batch)[0] == batch,
        fmt == ModelFormat::Onnx || fmt == ModelFormat::TorchScript ==> elements(
            default_shape(fmt, batch),
        ) == batch * 150_528 && default_shape(fmt, batch).len() == 4,
        fmt == ModelFormat::Gguf || fmt == ModelFormat::SafeTensors || fmt == ModelFormat::Unknown
            ==> elements(default_shape(fmt, batch)) == batch * 512 && default_shape(
            fmt,
            batch,
        ).len() == 2,
{
    let none = Seq::<usize>::empty();
    law_dimensions_multiply(none, batch);
    let s = default_shape(fmt, batch);
    if fmt == ModelFormat::Onnx || fmt == ModelFormat::TorchScript {
        law_dimensions_multiply(none.push(batch), 3);
        law_dimensions_multiply(none.push(batch).push(3), 224);
        law_dimensions_multiply(none.push(batch).push(3).push(224), 224);
        assert(s =~= none.push(batch).push(3).push(224).push(224));
        assert(batch as nat * 3 * 224 * 224 == batch * 150_528);
    } else {
        law_dimensions_multiply(none.push(batch), 512);
        assert(s =~= none.push(batch).push(512));
    }
}

/// A further dimension multiplies the number of elements.
pub proof fn law_dimensions_multiply(shape: Seq<usize>, n: usize)
    ensures
        elements(Seq::empty()) == 1,
        elements(shape.push(n)) == elements(shape) * n,
{
    assert(shape.push(n).drop_last() =~= shape);
}

/// The last component of a path is the name behind its last slash, and stays so where a
/// slash is appended; a path of slashes has none.
pub proof fn law_names_follow_the_last_slash(dir: Seq<char>, name: Seq<char>)
    requires
        name.len() > 0,
        name != "."@,
        !name.contains('/'),
    ensures
        last_component(name) == Some(name),
        last_component(dir + seq!['/'] + name) == Some(name),
        last_component(dir + seq!['/']) == last_component(dir),
        last_component(dir + seq!['/', '.']) == last_component(dir),
        last_component(Seq::empty()) is None,
{
    let named = |p: Seq<char>| is_component(p);
    let none = Seq::<char>::empty();
    reveal_strlit(".");
    text::lemma_first_index(name, '/');
    assert(text::split_on(name, '/') =~= seq![name]);
    assert(text::split_on(none, '/') =~= seq![none]);
    let dot = seq!['.'];
    text::lemma_first_index(dot, '/');
    assert(text::split_on(dot, '/') =~= seq![dot]);
    assert("."@ =~= dot);
    lemma_filter_single(name, named);
    lemma_filter_single(none, named);
    lemma_filter_single(dot, named);
    lemma_split_parts(dir, name);
    lemma_split_parts(dir, none);
    lemma_split_parts(dir, dot);
    assert(dir + seq!['/'] + none =~= dir + seq!['/']);
    assert(dir + seq!['/'] + dot =~= dir + seq!['/', '.']);
    let parts = text::split_on(dir, '/');
    Seq::filter_distributes_over_add(parts, seq![name], named);
    Seq::filter_distributes_over_add(parts, seq![none], named);
    Seq::filter_distributes_over_add(parts, seq![dot], named);
    assert((parts.filter(named) + seq![name]).last() == name);
    assert(parts.filter(named) + Seq::<Seq<char>>::empty() =~= parts.filter(named));
}

/// A filter keeps a single piece or drops it.
proof fn lemma_filter_single(p: Seq<char>, keep: spec_fn(Seq<char>) -> bool)
    ensures
        seq![p].filter(keep) == (if keep(p) {
            seq![p]
        } else {
            Seq::empty()
        }),
{
    reveal(Seq::filter);
    let one = seq![p];
    assert(one.drop_last() =~= Seq::<Seq<char>>::empty());
    assert(Seq::<Seq<char>>::empty().filter(keep) =~= Seq::<Seq<char>>::empty());
    assert(one.filter(keep) =~= if keep(p) {
        seq![p]
    } else {
        Seq::empty()
    });
}

/// The pieces of two texts with a slash between them are those of both.
proof fn lemma_split_parts(a: Seq<char>, b: Seq<char>)
    ensures
        text::split_on(a + seq!['/'] + b, '/') == text::split_on(a, '/') + text::split_on(b, '/'),
    decreases a.len(),
{
    let all = a + seq!['/'] + b;
    text::lemma_first_index(a, '/');
    text::lemma_first_index(all, '/');
    let n = text::first_index(a, '/');
    let m = text::first_index(all, '/');
    assert(all[a.len() as int] == '/');
    if n < m {
        assert(all[n] == if n < a.len() {
            a[n]
        } else {
            '/'
        });
    }
    if m < n {
        assert(all[m] == a[m]);
    }
    assert(all.take(n) =~= a.take(n));
    if n < a.len() {
        let rest = a.skip(n + 1);
        lemma_split_parts(rest, b);
        assert(all.skip(n + 1) =~= rest + seq!['/'] + b);
        assert(text::split_on(all, '/') =~= text::split_on(a, '/') + text::split_on(b, '/'));
    } else {
        assert(a.take(n) =~= a);
        assert(all.skip(n + 1) =~= b);
        assert(text::split_on(all, '/') =~= text::split_on(a, '/') + text::split_on(b, '/'));
    }
}

} // verus!
