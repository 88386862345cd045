//! Typed builder for FFmpeg `-filter_complex` strings.
//!
//! A graph is a list of nodes `[in1][in2]filter[out1]`, joined with `;`:
//! `[0:a]volume=0.8[a0];[1:a]adelay=2000|2000[a1];[a0][a1]amix=inputs=2:duration=longest[out]`

use vstd::prelude::*;

use crate::text::{
    chars_of, int_digits, millis_as_seconds, nat_digits, push_char, push_i64, push_millis_as_seconds,
    push_str, push_u64, MAX_SECONDS_MILLIS,
};

verus! {

/// One node: its input labels, its filter text, its output labels.
pub struct FilterNode {
    inputs: Vec<String>,
    filter: String,
    outputs: Vec<String>,
}

/// The mathematical model of a node.
pub type NodeModel = (Seq<Seq<char>>, Seq<char>, Seq<Seq<char>>);

impl FilterNode {
    pub closed spec fn model(&self) -> NodeModel {
        (self.inputs.deep_view(), self.filter@, self.outputs.deep_view())
    }
}

/// An ordered list of filter nodes.
pub struct FilterGraph {
    nodes: Vec<FilterNode>,
}

impl View for FilterGraph {
    type V = Seq<NodeModel>;

    closed spec fn view(&self) -> Seq<NodeModel> {
        self.nodes@.map_values(|n: FilterNode| n.model())
    }
}

/// How `amix` decides the length of its output.
#[derive(Clone, Copy, Debug, PartialEq, Eq)]
pub enum AmixDuration {
    Longest,
    Shortest,
    First,
}

pub open spec fn amix_duration_text(d: AmixDuration) -> Seq<char> {
    match d {
        AmixDuration::Longest => "longest"@,
        AmixDuration::Shortest => "shortest"@,
        AmixDuration::First => "first"@,
    }
}

impl AmixDuration {
    pub fn as_str(self) -> (s: &'static str)
        ensures
            s@ == amix_duration_text(self),
    {
        match self {
            AmixDuration::Longest => "longest",
            AmixDuration::Shortest => "shortest",
            AmixDuration::First => "first",
        }
    }
}

/// Labels written as `[l1][l2]...`.
pub open spec fn bracketed(labels: Seq<Seq<char>>) -> Seq<char>
    decreases labels.len(),
{
    if labels.len() == 0 {
        seq![]
    } else {
        bracketed(labels.drop_last()) + seq!['['] + labels.last() + seq![']']
    }
}

/// The text of one node.
pub open spec fn node_text(n: NodeModel) -> Seq<char> {
    bracketed(n.0) + n.1 + bracketed(n.2)
}

/// The text of a graph: its nodes, joined with `;`.
pub open spec fn graph_text(nodes: Seq<NodeModel>) -> Seq<char>
    decreases nodes.len(),
{
    if nodes.len() == 0 {
        seq![]
    } else if nodes.len() == 1 {
        node_text(nodes[0])
    } else {
        graph_text(nodes.drop_last()) + seq![';'] + node_text(nodes.last())
    }
}

/// The escaping of one character for a `drawtext` text value.
pub open spec fn escape_char(c: char) -> Seq<char> {
    if c == '\\' {
        seq!['\\', '\\']
    } else if c == ':' {
        seq!['\\', ':']
    } else if c == '\'' {
        seq!['\'', '\\', '\'', '\'']
    } else {
        seq![c]
    }
}

/// `text` with `\` doubled, `:` written `\:` and `'` written `'\''`.
pub open spec fn escape_drawtext_spec(text: Seq<char>) -> Seq<char>
    decreases text.len(),
{
    if text.len() == 0 {
        seq![]
    } else {
        escape_drawtext_spec(text.drop_last()) + escape_char(text.last())
    }
}

pub fn escape_drawtext(text: &str) -> (r: String)
    ensures
        r@ == escape_drawtext_spec(text@),
{
    let cs = chars_of(text);
    let mut out = String::new();
    let mut i: usize = 0;
    while i < cs.len()
        invariant
            i <= cs@.len(),
            cs@ == text@,
            out@ == escape_drawtext_spec(text@.take(i as int)),
        decreases cs@.len() - i,
    {
        let c = cs[i];
        if c == '\\' {
            push_char(&mut out, '\\');
            push_char(&mut out, '\\');
        } else if c == ':' {
            push_char(&mut out, '\\');
            push_char(&mut out, ':');
        } else if c == '\'' {
            push_char(&mut out, '\'');
            push_char(&mut out, '\\');
            push_char(&mut out, '\'');
            push_char(&mut out, '\'');
        } else {
            push_char(&mut out, c);
        }
        assert(text@.take(i + 1).drop_last() =~= text@.take(i as int));
        assert(out@ =~= escape_drawtext_spec(text@.take(i as int)) + escape_char(c));
        i = i + 1;
    }
    assert(text@.take(cs@.len() as int) =~= text@);
    out
}

/// `amix` text for `n` inputs.
pub open spec fn amix_text(n: nat, d: AmixDuration) -> Seq<char> {
    "amix=inputs="@ + nat_digits(n) + ":duration="@ + amix_duration_text(d)
}

pub open spec fn adelay_text(delay_ms: int) -> Seq<char> {
    "adelay="@ + int_digits(delay_ms) + seq!['|'] + int_digits(delay_ms)
}

pub open spec fn apad_text(duration_ms: int) -> Seq<char> {
    "apad=whole_dur="@ + millis_as_seconds(duration_ms)
}

pub open spec fn atrim_text(end_ms: int) -> Seq<char> {
    "atrim=end="@ + millis_as_seconds(end_ms)
}

pub open spec fn aconcat_text(n: nat) -> Seq<char> {
    "concat=n="@ + nat_digits(n) + ":v=0:a=1"@
}

pub open spec fn scale_text(width: int, height: int) -> Seq<char> {
    "scale="@ + int_digits(width) + seq![':'] + int_digits(height)
}

pub open spec fn pad_text(width: int, height: int, x: int, y: int, color: Seq<char>) -> Seq<char> {
    "pad="@ + int_digits(width) + seq![':'] + int_digits(height) + seq![':'] + int_digits(x)
        + seq![':'] + int_digits(y) + ":color="@ + color
}

pub open spec fn format_text(pix_fmt: Seq<char>) -> Seq<char> {
    "format="@ + pix_fmt
}

pub open spec fn zoompan_text(
    zoom: Seq<char>,
    x: Seq<char>,
    y: Seq<char>,
    frames: nat,
    width: nat,
    height: nat,
    fps: nat,
) -> Seq<char> {
    "zoompan=z='"@ + zoom + "':x='"@ + x + "':y='"@ + y + "':d="@ + nat_digits(frames) + ":s="@
        + nat_digits(width) + seq!['x'] + nat_digits(height) + ":fps="@ + nat_digits(fps)
}

/// `prefix` (such as `:enable='`), the value and a closing `'` when a value
/// is given; nothing otherwise.
pub open spec fn quoted_option(prefix: Seq<char>, value: Option<Seq<char>>) -> Seq<char> {
    match value {
        Some(v) => prefix + v + seq!['\''],
        None => seq![],
    }
}

pub open spec fn drawtext_text(
    text: Seq<char>,
    fontfile: Option<Seq<char>>,
    fontsize: nat,
    fontcolor: Seq<char>,
    x: Seq<char>,
    y: Seq<char>,
    enable: Option<Seq<char>>,
) -> Seq<char> {
    "drawtext=text='"@ + escape_drawtext_spec(text) + "':fontsize="@ + nat_digits(fontsize)
        + ":fontcolor="@ + fontcolor + ":x="@ + x + ":y="@ + y + quoted_option(":fontfile='"@, fontfile)
        + quoted_option(":enable='"@, enable)
}

pub open spec fn overlay_text(x: Seq<char>, y: Seq<char>, enable: Option<Seq<char>>) -> Seq<char> {
    "overlay=x="@ + x + ":y="@ + y + quoted_option(":enable='"@, enable)
}

pub open spec fn video_concat_text(n: nat, has_audio: bool) -> Seq<char> {
    "concat=n="@ + nat_digits(n) + ":v=1:a="@ + (if has_audio { "1"@ } else { "0"@ })
}

/// The view of an optional string slice.
pub open spec fn opt_view(o: Option<&str>) -> Option<Seq<char>> {
    match o {
        Some(s) => Some(s@),
        None => None,
    }
}

/// The views of a slice of string slices.
pub open spec fn strs_view(v: Seq<&str>) -> Seq<Seq<char>> {
    v.map_values(|s: &str| s@)
}

fn to_strings(v: &[&str]) -> (r: Vec<String>)
    ensures
        r.deep_view() == strs_view(v@),
{
    let mut r: Vec<String> = Vec::new();
    let mut i: usize = 0;
    while i < v.len()
        invariant
            i <= v@.len(),
            r.deep_view() =~= strs_view(v@.take(i as int)),
        decreases v@.len() - i,
    {
        let ghost before = r.deep_view();
        let item = v[i].to_owned();
        r.push(item);
        assert(r.deep_view() =~= before.push(v@[i as int]@));
        assert(strs_view(v@.take(i + 1)) =~= strs_view(v@.take(i as int)).push(v@[i as int]@));
        i = i + 1;
    }
    assert(v@.take(v@.len() as int) =~= v@);
    r
}

pub(crate) fn one(s: &str) -> (r: Vec<String>)
    ensures
        r.deep_view() == seq![s@],
{
    let mut r: Vec<String> = Vec::new();
    r.push(s.to_owned());
    assert(r.deep_view() =~= seq![s@]);
    r
}

fn push_labels(out: &mut String, labels: &Vec<String>)
    ensures
        final(out)@ == old(out)@ + bracketed(labels.deep_view()),
{
    let ghost start = out@;
    let mut i: usize = 0;
    while i < labels.len()
        invariant
            i <= labels@.len(),
            out@ == start + bracketed(labels.deep_view().take(i as int)),
        decreases labels@.len() - i,
    {
        push_char(out, '[');
        push_str(out, labels[i].as_str());
        push_char(out, ']');
        assert(labels.deep_view().take(i + 1).drop_last() =~= labels.deep_view().take(i as int));
        assert(out@ =~= start + bracketed(labels.deep_view().take(i + 1)));
        i = i + 1;
    }
    assert(labels.deep_view().take(labels@.len() as int) =~= labels.deep_view());
}

impl FilterGraph {
    /// An empty graph.
    pub fn new() -> (g: FilterGraph)
        ensures
            g@ == Seq::<NodeModel>::empty(),
    {
        let g = FilterGraph { nodes: Vec::new() };
        assert(g@ =~= Seq::<NodeModel>::empty());
        g
    }

    pub(crate) fn push_node(&mut self, inputs: Vec<String>, filter: String, outputs: Vec<String>)
        ensures
            final(self)@ == old(self)@.push((inputs.deep_view(), filter@, outputs.deep_view())),
    {
        let n = FilterNode { inputs, filter, outputs };
        self.nodes.push(n);
        assert(self@ =~= old(self)@.push((inputs.deep_view(), filter@, outputs.deep_view())));
    }

    /// Appends a node with the given labels and filter text as is. The
    /// filters whose parameters are not integers are written this way.
    pub fn node(&mut self, inputs: &[&str], filter: &str, outputs: &[&str])
        ensures
            final(self)@ == old(self)@.push((strs_view(inputs@), filter@, strs_view(outputs@))),
    {
        let i = to_strings(inputs);
        let o = to_strings(outputs);
        self.push_node(i, filter.to_owned(), o);
    }

    /// `[input]adelay=D|D[output]`: delays both channels by `delay_ms`.
    pub fn adelay(&mut self, input: &str, delay_ms: i64, output: &str)
        ensures
            final(self)@ == old(self)@.push((seq![input@], adelay_text(delay_ms as int), seq![output@])),
    {
        let mut f = String::new();
        push_str(&mut f, "adelay=");
        push_i64(&mut f, delay_ms);
        push_char(&mut f, '|');
        push_i64(&mut f, delay_ms);
        assert(f@ =~= adelay_text(delay_ms as int));
        self.push_node(one(input), f, one(output));
    }

    /// `[input]apad=whole_dur=S[output]`: pads with silence to `duration_ms`.
    pub fn apad(&mut self, input: &str, duration_ms: i64, output: &str)
        requires
            -MAX_SECONDS_MILLIS <= duration_ms <= MAX_SECONDS_MILLIS,
        ensures
            final(self)@ == old(self)@.push((seq![input@], apad_text(duration_ms as int), seq![output@])),
    {
        let mut f = String::new();
        push_str(&mut f, "apad=whole_dur=");
        push_millis_as_seconds(&mut f, duration_ms);
        self.push_node(one(input), f, one(output));
    }

    /// `[input]atrim=end=S[output]`: cuts the stream at `end_ms`.
    pub fn atrim(&mut self, input: &str, end_ms: i64, output: &str)
        requires
            -MAX_SECONDS_MILLIS <= end_ms <= MAX_SECONDS_MILLIS,
        ensures
            final(self)@ == old(self)@.push((seq![input@], atrim_text(end_ms as int), seq![output@])),
    {
        let mut f = String::new();
        push_str(&mut f, "atrim=end=");
        push_millis_as_seconds(&mut f, end_ms);
        self.push_node(one(input), f, one(output));
    }

    /// Mixes all `inputs` into `output`.
    pub fn amix(&mut self, inputs: &[&str], duration: AmixDuration, output: &str)
        ensures
            final(self)@ == old(self)@.push((strs_view(inputs@), amix_text(inputs@.len(), duration), seq![output@])),
    {
        let mut f = String::new();
        push_str(&mut f, "amix=inputs=");
        push_u64(&mut f, inputs.len() as u64);
        push_str(&mut f, ":duration=");
        push_str(&mut f, duration.as_str());
        self.push_node(to_strings(inputs), f, one(output));
    }

    /// Plays the audio `inputs` one after the other.
    pub fn aconcat(&mut self, inputs: &[&str], output: &str)
        ensures
            final(self)@ == old(self)@.push((strs_view(inputs@), aconcat_text(inputs@.len()), seq![output@])),
    {
        let mut f = String::new();
        push_str(&mut f, "concat=n=");
        push_u64(&mut f, inputs.len() as u64);
        push_str(&mut f, ":v=0:a=1");
        self.push_node(to_strings(inputs), f, one(output));
    }

    pub fn scale(&mut self, input: &str, width: i32, height: i32, output: &str)
        ensures
            final(self)@ == old(self)@.push((seq![input@], scale_text(width as int, height as int), seq![output@])),
    {
        let mut f = String::new();
        push_str(&mut f, "scale=");
        push_i64(&mut f, width as i64);
        push_char(&mut f, ':');
        push_i64(&mut f, height as i64);
        assert(f@ =~= scale_text(width as int, height as int));
        self.push_node(one(input), f, one(output));
    }

    pub fn pad(&mut self, input: &str, width: i32, height: i32, x: i32, y: i32, color: &str, output: &str)
        ensures
            final(self)@ == old(self)@.push(
                (seq![input@], pad_text(width as int, height as int, x as int, y as int, color@), seq![output@]),
            ),
    {
        let mut f = String::new();
        push_str(&mut f, "pad=");
        push_i64(&mut f, width as i64);
        push_char(&mut f, ':');
        push_i64(&mut f, height as i64);
        push_char(&mut f, ':');
        push_i64(&mut f, x as i64);
        push_char(&mut f, ':');
        push_i64(&mut f, y as i64);
        push_str(&mut f, ":color=");
        push_str(&mut f, color);
        assert(f@ =~= pad_text(width as int, height as int, x as int, y as int, color@));
        self.push_node(one(input), f, one(output));
    }

    pub fn format(&mut self, input: &str, pix_fmt: &str, output: &str)
        ensures
            final(self)@ == old(self)@.push((seq![input@], format_text(pix_fmt@), seq![output@])),
    {
        let mut f = String::new();
        push_str(&mut f, "format=");
        push_str(&mut f, pix_fmt);
        self.push_node(one(input), f, one(output));
    }

    pub fn zoompan(
        &mut self,
        input: &str,
        zoom_expr: &str,
        x_expr: &str,
        y_expr: &str,
        duration_frames: u32,
        width: u32,
        height: u32,
        fps: u32,
        output: &str,
    )
        ensures
            final(self)@ == old(self)@.push(
                (
                    seq![input@],
                    zoompan_text(
                        zoom_expr@,
                        x_expr@,
                        y_expr@,
                        duration_frames as nat,
                        width as nat,
                        height as nat,
                        fps as nat,
                    ),
                    seq![output@],
                ),
            ),
    {
        let mut f = String::new();
        push_str(&mut f, "zoompan=z='");
        push_str(&mut f, zoom_expr);
        push_str(&mut f, "':x='");
        push_str(&mut f, x_expr);
        push_str(&mut f, "':y='");
        push_str(&mut f, y_expr);
        push_str(&mut f, "':d=");
        push_u64(&mut f, duration_frames as u64);
        push_str(&mut f, ":s=");
        push_u64(&mut f, width as u64);
        push_char(&mut f, 'x');
        push_u64(&mut f, height as u64);
        push_str(&mut f, ":fps=");
        push_u64(&mut f, fps as u64);
        assert(f@ =~= zoompan_text(
            zoom_expr@,
            x_expr@,
            y_expr@,
            duration_frames as nat,
            width as nat,
            height as nat,
            fps as nat,
        ));
        self.push_node(one(input), f, one(output));
    }

    pub fn drawtext(
        &mut self,
        input: &str,
        text: &str,
        fontfile: Option<&str>,
        fontsize: u32,
        fontcolor: &str,
        x: &str,
        y: &str,
        enable_expr: Option<&str>,
        output: &str,
    )
        ensures
            final(self)@ == old(self)@.push(
                (
                    seq![input@],
                    drawtext_text(
                        text@,
                        opt_view(fontfile),
                        fontsize as nat,
                        fontcolor@,
                        x@,
                        y@,
                        opt_view(enable_expr),
                    ),
                    seq![output@],
                ),
            ),
    {
        let escaped = escape_drawtext(text);
        let mut f = String::new();
        push_str(&mut f, "drawtext=text='");
        push_str(&mut f, escaped.as_str());
        push_str(&mut f, "':fontsize=");
        push_u64(&mut f, fontsize as u64);
        push_str(&mut f, ":fontcolor=");
        push_str(&mut f, fontcolor);
        push_str(&mut f, ":x=");
        push_str(&mut f, x);
        push_str(&mut f, ":y=");
        push_str(&mut f, y);
        let ghost base = f@;
        if let Some(ff) = fontfile {
            push_str(&mut f, ":fontfile='");
            push_str(&mut f, ff);
            push_char(&mut f, '\'');
            assert(f@ =~= base + quoted_option(":fontfile='"@, opt_view(fontfile)));
        } else {
            assert(f@ =~= base + quoted_option(":fontfile='"@, opt_view(fontfile)));
        }
        let ghost base2 = f@;
        if let Some(expr) = enable_expr {
            push_str(&mut f, ":enable='");
            push_str(&mut f, expr);
            push_char(&mut f, '\'');
            assert(f@ =~= base2 + quoted_option(":enable='"@, opt_view(enable_expr)));
        } else {
            assert(f@ =~= base2 + quoted_option(":enable='"@, opt_view(enable_expr)));
        }
        assert(f@ =~= drawtext_text(
            text@,
            opt_view(fontfile),
            fontsize as nat,
            fontcolor@,
            x@,
            y@,
            opt_view(enable_expr),
        ));
        self.push_node(one(input), f, one(output));
    }

    pub fn overlay(
        &mut self,
        main_input: &str,
        overlay_input: &str,
        x: &str,
        y: &str,
        enable_expr: Option<&str>,
        output: &str,
    )
        ensures
            final(self)@ == old(self)@.push(
                (seq![main_input@, overlay_input@], overlay_text(x@, y@, opt_view(enable_expr)), seq![output@]),
            ),
    {
        let mut f = String::new();
        push_str(&mut f, "overlay=x=");
        push_str(&mut f, x);
        push_str(&mut f, ":y=");
        push_str(&mut f, y);
        let ghost base = f@;
        if let Some(expr) = enable_expr {
            push_str(&mut f, ":enable='");
            push_str(&mut f, expr);
            push_char(&mut f, '\'');
            assert(f@ =~= base + quoted_option(":enable='"@, opt_view(enable_expr)));
        } else {
            assert(f@ =~= base + quoted_option(":enable='"@, opt_view(enable_expr)));
        }
        let mut ins: Vec<String> = Vec::new();
        ins.push(main_input.to_owned());
        ins.push(overlay_input.to_owned());
        assert(ins.deep_view() =~= seq![main_input@, overlay_input@]);
        self.push_node(ins, f, one(output));
    }

    /// Joins `n_segments` video (and, with `has_audio`, audio) segments.
    pub fn video_concat(
        &mut self,
        inputs: &[&str],
        n_segments: usize,
        has_audio: bool,
        output_v: &str,
        output_a: Option<&str>,
    )
        ensures
            final(self)@ == old(self)@.push(
                (
                    strs_view(inputs@),
                    video_concat_text(n_segments as nat, has_audio),
                    match output_a {
                        Some(oa) => seq![output_v@, oa@],
                        None => seq![output_v@],
                    },
                ),
            ),
    {
        let mut f = String::new();
        push_str(&mut f, "concat=n=");
        push_u64(&mut f, n_segments as u64);
        push_str(&mut f, ":v=1:a=");
        if has_audio {
            push_str(&mut f, "1");
        } else {
            push_str(&mut f, "0");
        }
        let mut outputs: Vec<String> = Vec::new();
        outputs.push(output_v.to_owned());
        if let Some(oa) = output_a {
            outputs.push(oa.to_owned());
            assert(outputs.deep_view() =~= seq![output_v@, oa@]);
        } else {
            assert(outputs.deep_view() =~= seq![output_v@]);
        }
        self.push_node(to_strings(inputs), f, outputs);
    }

    pub fn is_empty(&self) -> (b: bool)
        ensures
            b == (self@.len() == 0),
    {
        self.nodes.len() == 0
    }

    /// The `-filter_complex` text of the graph.
    pub fn build(&self) -> (s: String)
        ensures
            s@ == graph_text(self@),
    {
        let mut out = String::new();
        let mut i: usize = 0;
        while i < self.nodes.len()
            invariant
                i <= self.nodes@.len(),
                out@ == graph_text(self@.take(i as int)),
            decreases self.nodes@.len() - i,
        {
            let node = &self.nodes[i];
            let ghost before = out@;
            if i > 0 {
                push_char(&mut out, ';');
            }
            push_labels(&mut out, &node.inputs);
            push_str(&mut out, node.filter.as_str());
            push_labels(&mut out, &node.outputs);
            proof {
                let t = self@.take(i + 1);
                assert(t.drop_last() =~= self@.take(i as int));
                assert(t.last() == node.model());
                if i == 0 {
                    assert(out@ =~= node_text(t[0]));
                } else {
                    assert(out@ =~= before + seq![';'] + node_text(t.last()));
                }
            }
            i = i + 1;
        }
        assert(self@.take(self.nodes@.len() as int) =~= self@);
        out
    }
}

/// Adding a node to a graph appends its text, after a `;` unless the graph
/// was empty; an empty graph builds the empty text.
pub proof fn law_build_appends(g: Seq<NodeModel>, n: NodeModel)
    ensures
        graph_text(Seq::<NodeModel>::empty()) == Seq::<char>::empty(),
        graph_text(g.push(n)) == (if g.len() == 0 {
            node_text(n)
        } else {
            graph_text(g) + seq![';'] + node_text(n)
        }),
{
    assert(g.push(n).drop_last() =~= g);
    if g.len() == 0 {
        assert(g.push(n)[0] == n);
    }
}

/// The text of two graphs built one after the other is the text of the
/// first, a `;`, and the text of the second.
pub proof fn law_build_concatenates(a: Seq<NodeModel>, b: Seq<NodeModel>)
    requires
        a.len() > 0,
        b.len() > 0,
    ensures
        graph_text(a + b) == graph_text(a) + seq![';'] + graph_text(b),
    decreases b.len(),
{
    if b.len() == 1 {
        assert((a + b).drop_last() =~= a);
        assert((a + b).last() == b[0]);
    } else {
        law_build_concatenates(a, b.drop_last());
        assert((a + b).drop_last() =~= a + b.drop_last());
        assert((a + b).last() == b.last());
        assert(graph_text(a + b) =~= graph_text(a) + seq![';'] + graph_text(b));
    }
}

/// A `zoompan` node's text ends with its output options in order: the
/// frame count after `:d=`, the size `WxH` after `:s=`, and the frame rate
/// after `:fps=`; nodes that differ only in frame rate differ in text.
pub proof fn law_zoompan_options(
    zoom: Seq<char>,
    x: Seq<char>,
    y: Seq<char>,
    frames: nat,
    width: nat,
    height: nat,
    fps: nat,
    fps2: nat,
)
    ensures
        ({
            let t = zoompan_text(zoom, x, y, frames, width, height, fps);
            let tail = "':d="@ + nat_digits(frames) + ":s="@ + nat_digits(width) + seq!['x'] + nat_digits(height)
                + ":fps="@ + nat_digits(fps);
            &&& t.len() >= tail.len()
            &&& t.skip(t.len() - tail.len()) == tail
            &&& t.take(t.len() - tail.len()) == "zoompan=z='"@ + zoom + "':x='"@ + x + "':y='"@ + y
        }),
        fps != fps2 ==> zoompan_text(zoom, x, y, frames, width, height, fps) != zoompan_text(
            zoom,
            x,
            y,
            frames,
            width,
            height,
            fps2,
        ),
{
    let t = zoompan_text(zoom, x, y, frames, width, height, fps);
    let head = "zoompan=z='"@ + zoom + "':x='"@ + x + "':y='"@ + y;
    let tail = "':d="@ + nat_digits(frames) + ":s="@ + nat_digits(width) + seq!['x'] + nat_digits(height) + ":fps="@
        + nat_digits(fps);
    assert(t =~= head + tail);
    assert(t.skip(t.len() - tail.len()) =~= tail);
    assert(t.take(t.len() - tail.len()) =~= head);
    if fps != fps2 {
        let common = head + "':d="@ + nat_digits(frames) + ":s="@ + nat_digits(width) + seq!['x'] + nat_digits(
            height,
        ) + ":fps="@;
        let t2 = zoompan_text(zoom, x, y, frames, width, height, fps2);
        assert(t =~= common + nat_digits(fps));
        assert(t2 =~= common + nat_digits(fps2));
        crate::text::lemma_nat_digits_injective(fps, fps2);
        if t == t2 {
            assert(t.skip(common.len() as int) =~= nat_digits(fps));
            assert(t2.skip(common.len() as int) =~= nat_digits(fps2));
        }
    }
}

} // verus!
