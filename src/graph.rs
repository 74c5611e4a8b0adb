//! The per-session audio graph: which nodes the engine creates and how it links them, and
//! which nodes to tear down when a build fails part-way.
//!
//! Each track runs file source, WAV parser, converter, resampler, caps filter, volume and
//! panorama into a shared mixer; the mixer runs through a caps filter, an encoder and a
//! payloader into the transport node. The volume node of track `t` is named `t_vol` and its
//! panorama node `t_pan`.

use vstd::prelude::*;
use crate::envelope::texts_view;

verus! {

#[derive(Clone, Copy, Debug, PartialEq, Eq, Structural)]
pub enum NodeKind {
    FileSource,
    WavParse,
    AudioConvert,
    AudioResample,
    CapsFilter,
    Volume,
    Panorama,
    Mixer,
    Encoder,
    Payloader,
    Transport,
}

/// One engine operation of a build.
#[derive(Clone, Debug, PartialEq, Eq)]
pub enum GraphStep {
    /// Create node `name` of `kind`; a file source reads `location`, other nodes have none.
    Add { name: String, kind: NodeKind, location: String },
    /// Link the output of `from` into `to`.
    Link { from: String, to: String },
}

pub enum StepView {
    Add { name: Seq<char>, kind: NodeKind, location: Seq<char> },
    Link { from: Seq<char>, to: Seq<char> },
}

impl View for GraphStep {
    type V = StepView;

    open spec fn view(&self) -> StepView {
        match self {
            GraphStep::Add { name, kind, location } => StepView::Add {
                name: name@,
                kind: *kind,
                location: location@,
            },
            GraphStep::Link { from, to } => StepView::Link { from: from@, to: to@ },
        }
    }
}

pub open spec fn steps_view(v: Seq<GraphStep>) -> Seq<StepView> {
    v.map_values(|s: GraphStep| s@)
}

pub open spec fn add_node(name: Seq<char>, kind: NodeKind) -> StepView {
    StepView::Add { name, kind, location: Seq::empty() }
}

pub open spec fn link(from: Seq<char>, to: Seq<char>) -> StepView {
    StepView::Link { from, to }
}

/// The steps for one track `t` read from `src`, ending in a link into the mixer.
pub open spec fn track_steps(t: Seq<char>, src: Seq<char>) -> Seq<StepView> {
    let parse = t + "_parse"@;
    let convert = t + "_convert"@;
    let resample = t + "_resample"@;
    let caps = t + "_caps"@;
    let vol = t + "_vol"@;
    let pan = t + "_pan"@;
    seq![
        StepView::Add { name: t, kind: NodeKind::FileSource, location: src },
        add_node(parse, NodeKind::WavParse),
        link(t, parse),
        add_node(convert, NodeKind::AudioConvert),
        link(parse, convert),
        add_node(resample, NodeKind::AudioResample),
        link(convert, resample),
        add_node(caps, NodeKind::CapsFilter),
        link(resample, caps),
        add_node(vol, NodeKind::Volume),
        link(caps, vol),
        add_node(pan, NodeKind::Panorama),
        link(vol, pan),
        link(pan, "mix"@),
    ]
}

/// The steps for the tracks `ts`, read from `srcs`, in order.
pub open spec fn tracks_steps(ts: Seq<Seq<char>>, srcs: Seq<Seq<char>>) -> Seq<StepView>
    decreases ts.len(),
{
    if ts.len() == 0 {
        Seq::empty()
    } else {
        tracks_steps(ts.drop_last(), srcs) + track_steps(ts.last(), srcs[ts.len() - 1])
    }
}

/// The steps after the tracks: mixer output through caps filter, encoder and payloader into the
/// transport node `transport`.
pub open spec fn output_steps(transport: Seq<char>) -> Seq<StepView> {
    seq![
        add_node("out_caps"@, NodeKind::CapsFilter),
        link("mix"@, "out_caps"@),
        add_node("encoder"@, NodeKind::Encoder),
        link("out_caps"@, "encoder"@),
        add_node("payloader"@, NodeKind::Payloader),
        link("encoder"@, "payloader"@),
        add_node(transport, NodeKind::Transport),
        link("payloader"@, transport),
    ]
}

/// The whole build for session `id`: the mixer, every track, then the output chain into the
/// transport node `webrtc-<id>`.
pub open spec fn build_steps(id: Seq<char>, ts: Seq<Seq<char>>, srcs: Seq<Seq<char>>) -> Seq<
    StepView,
> {
    seq![add_node("mix"@, NodeKind::Mixer)] + tracks_steps(ts, srcs) + output_steps("webrtc-"@ + id)
}

/// The nodes that `steps` create, newest first: the order to remove them in.
pub open spec fn removal_order(steps: Seq<StepView>) -> Seq<Seq<char>>
    decreases steps.len(),
{
    if steps.len() == 0 {
        Seq::empty()
    } else {
        let rest = removal_order(steps.drop_first());
        match steps[0] {
            StepView::Add { name, .. } => rest.push(name),
            StepView::Link { .. } => rest,
        }
    }
}

fn suffixed(t: &str, suffix: &str) -> (r: String)
    ensures
        r@ == t@ + suffix@,
{
    String::from_str(t).concat(suffix)
}

fn add_step(name: String, kind: NodeKind) -> (r: GraphStep)
    ensures
        r@ == add_node(name@, kind),
{
    let r = GraphStep::Add { name, kind, location: String::new() };
    assert(r@ == add_node(name@, kind));
    r
}

fn link_step(from: &String, to: &String) -> (r: GraphStep)
    ensures
        r@ == link(from@, to@),
{
    GraphStep::Link { from: from.clone(), to: to.clone() }
}

/// Appends the steps of track `t` read from `src`.
fn push_track(steps: &mut Vec<GraphStep>, t: &str, src: &str)
    ensures
        steps_view(final(steps)@) == steps_view(old(steps)@) + track_steps(t@, src@),
{
    let name = String::from_str(t);
    let parse = suffixed(t, "_parse");
    let convert = suffixed(t, "_convert");
    let resample = suffixed(t, "_resample");
    let caps = suffixed(t, "_caps");
    let vol = suffixed(t, "_vol");
    let pan = suffixed(t, "_pan");
    let mix = String::from_str("mix");
    steps.push(GraphStep::Add { name: name.clone(), kind: NodeKind::FileSource, location: String::from_str(src) });
    steps.push(add_step(parse.clone(), NodeKind::WavParse));
    steps.push(link_step(&name, &parse));
    steps.push(add_step(convert.clone(), NodeKind::AudioConvert));
    steps.push(link_step(&parse, &convert));
    steps.push(add_step(resample.clone(), NodeKind::AudioResample));
    steps.push(link_step(&convert, &resample));
    steps.push(add_step(caps.clone(), NodeKind::CapsFilter));
    steps.push(link_step(&resample, &caps));
    steps.push(add_step(vol.clone(), NodeKind::Volume));
    steps.push(link_step(&caps, &vol));
    steps.push(add_step(pan.clone(), NodeKind::Panorama));
    steps.push(link_step(&vol, &pan));
    steps.push(link_step(&pan, &mix));
    assert(steps_view(steps@) =~= steps_view(old(steps)@) + track_steps(t@, src@));
}

/// The build for session `id` over the tracks `tracks`, each read from the source at the same
/// position in `sources`.
pub fn build_plan(id: &str, tracks: &Vec<String>, sources: &Vec<String>) -> (r: Vec<GraphStep>)
    requires
        tracks@.len() == sources@.len(),
    ensures
        steps_view(r@) == build_steps(id@, texts_view(tracks@), texts_view(sources@)),
{
    let ghost ts = texts_view(tracks@);
    let ghost srcs = texts_view(sources@);
    let mut steps: Vec<GraphStep> = Vec::new();
    steps.push(add_step(String::from_str("mix"), NodeKind::Mixer));
    assert(steps_view(steps@) =~= seq![add_node("mix"@, NodeKind::Mixer)]);
    let mut i: usize = 0;
    while i < tracks.len()
        invariant
            i <= tracks@.len(),
            tracks@.len() == sources@.len(),
            ts == texts_view(tracks@),
            srcs == texts_view(sources@),
            steps_view(steps@) == seq![add_node("mix"@, NodeKind::Mixer)] + tracks_steps(
                ts.subrange(0, i as int),
                srcs,
            ),
        decreases tracks.len() - i,
    {
        push_track(&mut steps, tracks[i].as_str(), sources[i].as_str());
        proof {
            let done = ts.subrange(0, i + 1);
            assert(done.drop_last() =~= ts.subrange(0, i as int));
            assert(done.last() == tracks@[i as int]@);
            assert(srcs[i as int] == sources@[i as int]@);
            assert(seq![add_node("mix"@, NodeKind::Mixer)] + tracks_steps(ts.subrange(0, i as int), srcs)
                + track_steps(tracks@[i as int]@, sources@[i as int]@) =~= seq![
                add_node("mix"@, NodeKind::Mixer)] + tracks_steps(done, srcs));
        }
        i += 1;
    }
    let transport = String::from_str("webrtc-").concat(id);
    let out_caps = String::from_str("out_caps");
    let encoder = String::from_str("encoder");
    let payloader = String::from_str("payloader");
    let mix = String::from_str("mix");
    let ghost before = steps_view(steps@);
    steps.push(add_step(out_caps.clone(), NodeKind::CapsFilter));
    steps.push(link_step(&mix, &out_caps));
    steps.push(add_step(encoder.clone(), NodeKind::Encoder));
    steps.push(link_step(&out_caps, &encoder));
    steps.push(add_step(payloader.clone(), NodeKind::Payloader));
    steps.push(link_step(&encoder, &payloader));
    steps.push(add_step(transport.clone(), NodeKind::Transport));
    steps.push(link_step(&payloader, &transport));
    proof {
        assert(ts.subrange(0, tracks@.len() as int) =~= ts);
        assert(steps_view(steps@) =~= before + output_steps("webrtc-"@ + id@));
    }
    steps
}

/// The nodes to remove after a build failed at step `failed`: those created by the steps
/// before it, newest first.
pub fn rollback(steps: &Vec<GraphStep>, failed: usize) -> (r: Vec<String>)
    requires
        failed <= steps@.len(),
    ensures
        texts_view(r@) == removal_order(steps_view(steps@).subrange(0, failed as int)),
{
    let ghost all = steps_view(steps@);
    let mut out: Vec<String> = Vec::new();
    let mut i: usize = failed;
    assert(all.subrange(failed as int, failed as int) =~= Seq::<StepView>::empty());
    assert(texts_view(out@) =~= Seq::<Seq<char>>::empty());
    while i > 0
        invariant
            i <= failed <= steps@.len(),
            all == steps_view(steps@),
            texts_view(out@) == removal_order(all.subrange(i as int, failed as int)),
        decreases i,
    {
        i -= 1;
        let ghost tail = all.subrange(i as int, failed as int);
        assert(tail.drop_first() =~= all.subrange(i + 1, failed as int));
        assert(tail[0] == steps@[i as int]@);
        match &steps[i] {
            GraphStep::Add { name, .. } => {
                out.push(name.clone());
                assert(texts_view(out@) =~= removal_order(all.subrange(i + 1, failed as int)).push(
                    name@,
                ));
            },
            GraphStep::Link { .. } => {},
        }
    }
    out
}

} // verus!
