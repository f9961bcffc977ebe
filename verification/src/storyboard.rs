//! The storyboard document: a single `[Events]` header followed by an
//! unbounded run of object and command blocks.

use crate::command::Command;
use crate::command::spec_parse_command;
use crate::error::DecodeError;
use crate::error::ParseErrorKind;
use crate::events::OsuStoryboard;
use crate::events::OsuStoryboardV;
use crate::events::spec_parse_storyboard_object;
use crate::events::storyboard_valid;
use crate::events::spec_render_storyboard;
use crate::sanitize::sanitize_lines;
use crate::sanitize::spec_sanitize;
use crate::text::contains_str;
use crate::text::spec_contains_str;
use crate::text::spec_split_trim;
use vstd::prelude::*;

verus! {

impl DeepView for OsuStoryboard {
    type V = OsuStoryboardV;

    open spec fn deep_view(&self) -> OsuStoryboardV {
        self.view()
    }
}

/// A decoded storyboard document.
#[derive(Clone, Debug, PartialEq, Eq)]
pub struct Storyboard {
    pub file_name: String,
    pub storyboards: Vec<OsuStoryboard>,
}

pub ghost struct StoryboardV {
    pub file_name: Seq<char>,
    pub storyboards: Seq<OsuStoryboardV>,
}

impl View for Storyboard {
    type V = StoryboardV;

    open spec fn view(&self) -> StoryboardV {
        StoryboardV { file_name: self.file_name@, storyboards: self.storyboards.deep_view() }
    }
}

/// The storyboard scanner's state: finished blocks, and the block whose
/// command run is still open.
pub ghost struct SbState {
    pub done: Seq<OsuStoryboardV>,
    pub open_sb: Option<OsuStoryboardV>,
}

pub open spec fn spec_sb_close(st: SbState) -> SbState {
    match st.open_sb {
        Some(sb) => SbState { done: st.done.push(sb), open_sb: None },
        None => st,
    }
}

/// One step: a command attaches to the open block; otherwise an object
/// line closes it and opens a new one; any other line is a decode failure.
pub open spec fn spec_sb_step(st: SbState, line: Seq<char>, idx: usize) -> Result<
    SbState,
    DecodeError,
> {
    if st.open_sb is Some && spec_parse_command(line) is Ok {
        let sb = st.open_sb->Some_0;
        Ok(
            SbState {
                open_sb: Some(
                    OsuStoryboardV {
                        storyboard_type: sb.storyboard_type,
                        commands: sb.commands.push(spec_parse_command(line)->Ok_0),
                    },
                ),
                ..st
            },
        )
    } else {
        match spec_parse_storyboard_object(spec_split_trim(line, ',')) {
            Ok(obj) => Ok(
                SbState {
                    done: spec_sb_close(st).done,
                    open_sb: Some(
                        OsuStoryboardV {
                            storyboard_type: obj,
                            commands: Seq::<crate::command::CommandV>::empty(),
                        },
                    ),
                },
            ),
            Err(k) => Err(DecodeError { kind: k, line: idx }),
        }
    }
}

pub open spec fn spec_sb_scan(lines: Seq<Seq<char>>, i: int, st: SbState) -> Result<
    SbState,
    DecodeError,
>
    decreases lines.len() - i,
{
    if i < 0 || i >= lines.len() {
        Ok(st)
    } else {
        match spec_sb_step(st, lines[i], i as usize) {
            Err(e) => Err(e),
            Ok(st2) => spec_sb_scan(lines, i + 1, st2),
        }
    }
}

/// The whole storyboard decoder: the first logical line must carry the
/// `[Events]` header; every further line must belong to an object block.
pub open spec fn spec_decode_storyboard(text: Seq<char>, file_name: Seq<char>) -> Result<
    StoryboardV,
    DecodeError,
> {
    let lines = spec_sanitize(text);
    if lines.len() == 0 {
        Ok(StoryboardV { file_name, storyboards: Seq::<OsuStoryboardV>::empty() })
    } else if !spec_contains_str(lines[0], "[Events]"@) {
        Err(DecodeError { kind: ParseErrorKind::UnknownSection, line: 0 })
    } else {
        match spec_sb_scan(lines, 1, SbState { done: Seq::<OsuStoryboardV>::empty(), open_sb: None }) {
            Err(e) => Err(e),
            Ok(st) => Ok(
                StoryboardV { file_name, storyboards: spec_sb_close(st).done },
            ),
        }
    }
}

impl Storyboard {
    /// An empty storyboard document under the given name.
    pub fn new(file_name: &str) -> (r: Storyboard)
        ensures
            r@.file_name == file_name@,
            r@.storyboards.len() == 0,
    {
        let r = Storyboard { file_name: file_name.to_owned(), storyboards: Vec::new() };
        proof {
            assert(r@.storyboards =~= Seq::<OsuStoryboardV>::empty());
        }
        r
    }

    /// Appends one finished block.
    pub fn push_storyboard(&mut self, storyboard: OsuStoryboard)
        ensures
            final(self)@.file_name == old(self)@.file_name,
            final(self)@.storyboards == old(self)@.storyboards.push(storyboard@),
    {
        let ghost sv = storyboard@;
        self.storyboards.push(storyboard);
        proof {
            assert(self.storyboards.deep_view() =~= old(self).storyboards.deep_view().push(sv));
        }
    }

    /// One storyboard-scanner step on one logical line.
    #[verifier::rlimit(100)]
    #[verifier::spinoff_prover]
    fn sb_step(line: &str, idx: usize, result: &mut Storyboard, open_sb: &mut Option<
        OsuStoryboard,
    >) -> (res: Result<(), DecodeError>)
        ensures
            ({
                let prev = SbState {
                    done: old(result)@.storyboards,
                    open_sb: match *old(open_sb) {
                        Some(ref sb) => Some(sb@),
                        None => None,
                    },
                };
                let cur = SbState {
                    done: final(result)@.storyboards,
                    open_sb: match *final(open_sb) {
                        Some(ref sb) => Some(sb@),
                        None => None,
                    },
                };
                final(result)@.file_name == old(result)@.file_name && match res {
                    Ok(_) => spec_sb_step(prev, line@, idx) == Ok::<SbState, DecodeError>(cur),
                    Err(e) => spec_sb_step(prev, line@, idx) == Err::<SbState, DecodeError>(e),
                }
            }),
    {
        let ghost prev = SbState {
            done: result@.storyboards,
            open_sb: match *open_sb {
                Some(ref sb) => Some(sb@),
                None => None,
            },
        };
        if open_sb.is_some() {
            match Command::parse(line) {
                Ok(c) => {
                    let ghost cv = c@;
                    if let Some(mut sb) = open_sb.take() {
                        let ghost sbv = sb@;
                        sb.add_command(c);
                        proof {
                            assert(spec_sb_step(prev, line@, idx) == Ok::<SbState, DecodeError>(
                                SbState {
                                    done: prev.done,
                                    open_sb: Some(
                                        OsuStoryboardV {
                                            storyboard_type: sbv.storyboard_type,
                                            commands: sbv.commands.push(cv),
                                        },
                                    ),
                                },
                            ));
                        }
                        *open_sb = Some(sb);
                    }
                    return Ok(());
                },
                Err(_) => {
                    proof {
                        assert(spec_parse_command(line@) is Err);
                    }
                },
            }
        }
        match OsuStoryboard::parse(line) {
            Ok(sb) => {
                if let Some(done_sb) = open_sb.take() {
                    result.push_storyboard(done_sb);
                }
                proof {
                    assert(sb@.commands =~= Seq::<crate::command::CommandV>::empty());
                    assert(spec_sb_step(prev, line@, idx) == Ok::<SbState, DecodeError>(
                        SbState { done: result@.storyboards, open_sb: Some(sb@) },
                    ));
                }
                *open_sb = Some(sb);
                Ok(())
            },
            Err(k) => {
                proof {
                    assert(spec_sb_step(prev, line@, idx) == Err::<SbState, DecodeError>(
                        DecodeError { kind: k, line: idx },
                    ));
                }
                Err(DecodeError { kind: k, line: idx })
            },
        }
    }

    /// Decodes a whole storyboard document from its raw text.
    #[verifier::rlimit(100)]
    #[verifier::spinoff_prover]
    #[verifier::loop_isolation(false)]
    pub fn parse(osb_data: &str, file_name: &str) -> (res: Result<Storyboard, DecodeError>)
        ensures
            match res {
                Ok(sb) => spec_decode_storyboard(osb_data@, file_name@) == Ok::<
                    StoryboardV,
                    DecodeError,
                >(sb@) && (forall|i: int|
                    0 <= i < sb@.storyboards.len() ==> storyboard_valid(
                        #[trigger] sb@.storyboards[i],
                    )),
                Err(e) => spec_decode_storyboard(osb_data@, file_name@) == Err::<
                    StoryboardV,
                    DecodeError,
                >(e),
            },
    {
        let lines = sanitize_lines(osb_data);
        let ghost lv = lines.deep_view();
        let mut result = Storyboard::new(file_name);
        if lines.len() == 0 {
            proof {
                assert(result@.storyboards =~= Seq::<OsuStoryboardV>::empty());
                lemma_decode_storyboard_valid(osb_data@, file_name@);
                assert(forall|i: int|
                    0 <= i < result@.storyboards.len() ==> storyboard_valid(
                        #[trigger] result@.storyboards[i],
                    ));
            }
            return Ok(result);
        }
        assert(lv[0] == lines[0]@);
        if !contains_str(lines[0], "[Events]") {
            return Err(DecodeError { kind: ParseErrorKind::UnknownSection, line: 0 });
        }
        let mut open_sb: Option<OsuStoryboard> = None;
        let mut i: usize = 1;
        proof {
            assert(result@.storyboards =~= Seq::<OsuStoryboardV>::empty());
        }
        while i < lines.len()
            invariant
                1 <= i <= lines.len(),
                lv == lines.deep_view(),
                result@.file_name == file_name@,
                spec_sb_scan(
                    lv,
                    1,
                    SbState { done: Seq::<OsuStoryboardV>::empty(), open_sb: None },
                ) == spec_sb_scan(
                    lv,
                    i as int,
                    SbState {
                        done: result@.storyboards,
                        open_sb: match open_sb {
                            Some(ref sb) => Some(sb@),
                            None => None,
                        },
                    },
                ),
            decreases lines.len() - i,
        {
            let ghost prev = SbState {
                done: result@.storyboards,
                open_sb: match open_sb {
                    Some(ref sb) => Some(sb@),
                    None => None,
                },
            };
            let line = lines[i];
            assert(line@ == lv[i as int]);
            match Self::sb_step(line, i, &mut result, &mut open_sb) {
                Ok(_) => {
                    proof {
                        let nxt = SbState {
                            done: result@.storyboards,
                            open_sb: match open_sb {
                                Some(ref sb) => Some(sb@),
                                None => None,
                            },
                        };
                        assert(spec_sb_step(prev, lv[i as int], i) == Ok::<SbState, DecodeError>(
                            nxt,
                        ));
                        assert(spec_sb_scan(lv, i as int, prev) == spec_sb_scan(lv, i + 1, nxt));
                    }
                },
                Err(e) => {
                    proof {
                        assert(spec_sb_scan(lv, i as int, prev) == Err::<SbState, DecodeError>(e));
                    }
                    return Err(e);
                },
            }
            i += 1;
        }
        let ghost st_end = SbState {
            done: result@.storyboards,
            open_sb: match open_sb {
                Some(ref sb) => Some(sb@),
                None => None,
            },
        };
        proof {
            assert(spec_sb_scan(lv, lines.len() as int, st_end) == Ok::<SbState, DecodeError>(
                st_end,
            ));
        }
        if let Some(done_sb) = open_sb.take() {
            result.push_storyboard(done_sb);
        }
        proof {
            assert(result@.storyboards == spec_sb_close(st_end).done);
            assert(spec_decode_storyboard(osb_data@, file_name@) == Ok::<StoryboardV, DecodeError>(
                result@,
            ));
            lemma_decode_storyboard_valid(osb_data@, file_name@);
            let dec = spec_decode_storyboard(osb_data@, file_name@);
            assert(dec->Ok_0 == result@);
            assert forall|i: int| 0 <= i < result@.storyboards.len() implies storyboard_valid(
                #[trigger] result@.storyboards[i],
            ) by {
                assert(result@.storyboards[i] == dec->Ok_0.storyboards[i]);
            }
        }
        Ok(result)
    }

    /// Encodes the storyboard back to its canonical text: the header and
    /// each block, or nothing at all when no block exists.
    pub fn render(&self) -> (res: String)
        requires
            forall|i: int|
                0 <= i < self@.storyboards.len() ==> storyboard_valid(
                    #[trigger] self@.storyboards[i],
                ),
        ensures
            res@ == spec_render_storyboard_doc(self@),
    {
        let mut out = String::new();
        if self.storyboards.len() == 0 {
            proof {
                assert(out@ =~= spec_render_storyboard_doc(self@));
            }
            return out;
        }
        out.append("[Events]\n");
        let ghost base = out@;
        let mut i: usize = 0;
        proof {
            assert(self@.storyboards.take(0) =~= Seq::<OsuStoryboardV>::empty());
            assert(out@ =~= base + spec_render_sb_list(self@.storyboards.take(0)));
        }
        while i < self.storyboards.len()
            invariant
                0 <= i <= self.storyboards.len(),
                forall|j: int|
                    0 <= j < self@.storyboards.len() ==> storyboard_valid(
                        #[trigger] self@.storyboards[j],
                    ),
                out@ == base + spec_render_sb_list(self@.storyboards.take(i as int)),
                base == "[Events]\n"@,
                self.storyboards.len() > 0,
            decreases self.storyboards.len() - i,
        {
            let sb = &self.storyboards[i];
            proof {
                assert(self@.storyboards[i as int] == self.storyboards@[i as int].deep_view());
            }
            assert(sb@ == self@.storyboards[i as int]);
            assert(storyboard_valid(self@.storyboards[i as int]));
            sb.render(&mut out);
            proof {
                lemma_sb_list_push(self@.storyboards.take(i as int), self@.storyboards[i as int]);
                assert(self@.storyboards.take(i as int).push(self@.storyboards[i as int])
                    =~= self@.storyboards.take(i + 1));
            }
            i += 1;
        }
        proof {
            assert(self@.storyboards.take(self.storyboards.len() as int) =~= self@.storyboards);
            assert(out@ =~= spec_render_storyboard_doc(self@));
        }
        out
    }

    /// The document's recorded file name.
    pub fn get_file_name(&self) -> (r: &str)
        ensures
            r@ == self@.file_name,
    {
        self.file_name.as_str()
    }
}

/// The canonical text of a storyboard document.
pub open spec fn spec_render_storyboard_doc(sb: StoryboardV) -> Seq<char> {
    if sb.storyboards.len() == 0 {
        Seq::<char>::empty()
    } else {
        "[Events]\n"@ + spec_render_sb_list(sb.storyboards)
    }
}

pub open spec fn spec_render_sb_list(sbs: Seq<OsuStoryboardV>) -> Seq<char>
    decreases sbs.len(),
{
    if sbs.len() == 0 {
        Seq::<char>::empty()
    } else {
        spec_render_storyboard(sbs[0]) + spec_render_sb_list(sbs.skip(1))
    }
}

proof fn lemma_sb_list_push(sbs: Seq<OsuStoryboardV>, sb: OsuStoryboardV)
    ensures
        spec_render_sb_list(sbs.push(sb)) == spec_render_sb_list(sbs) + spec_render_storyboard(sb),
    decreases sbs.len(),
{
    if sbs.len() == 0 {
        assert(sbs.push(sb)[0] == sb);
        assert(sbs.push(sb).skip(1) =~= Seq::<OsuStoryboardV>::empty());
        assert(spec_render_sb_list(Seq::<OsuStoryboardV>::empty()) == Seq::<char>::empty());
        assert(spec_render_sb_list(sbs.push(sb)) =~= spec_render_sb_list(sbs)
            + spec_render_storyboard(sb));
    } else {
        lemma_sb_list_push(sbs.skip(1), sb);
        assert(sbs.push(sb).skip(1) =~= sbs.skip(1).push(sb));
        assert(sbs.push(sb)[0] == sbs[0]);
        assert(spec_render_storyboard(sbs[0]) + (spec_render_sb_list(sbs.skip(1))
            + spec_render_storyboard(sb)) =~= (spec_render_storyboard(sbs[0])
            + spec_render_sb_list(sbs.skip(1))) + spec_render_storyboard(sb));
    }
}

} // verus!

verus! {

/// The storyboard scanner's running validity: every finished block and the
/// open one are in the canonical form the serializer asks for.
pub open spec fn sb_state_valid(st: SbState) -> bool {
    &&& forall|i: int| 0 <= i < st.done.len() ==> storyboard_valid(#[trigger] st.done[i])
    &&& match st.open_sb {
        Some(sb) => storyboard_valid(sb),
        None => true,
    }
}

proof fn lemma_sb_close_valid(st: SbState)
    requires
        sb_state_valid(st),
    ensures
        sb_state_valid(spec_sb_close(st)),
{
    match st.open_sb {
        Some(sb) => {
            let d2 = st.done.push(sb);
            assert forall|i: int| 0 <= i < d2.len() implies storyboard_valid(#[trigger] d2[i]) by {
                if i < st.done.len() {
                    assert(d2[i] == st.done[i]);
                } else {
                    assert(d2[i] == sb);
                }
            }
        },
        None => {},
    }
}

/// One storyboard-scanner step keeps the state canonical.
proof fn lemma_sb_step_valid(st: SbState, line: Seq<char>, idx: usize)
    requires
        sb_state_valid(st),
    ensures
        match spec_sb_step(st, line, idx) {
            Ok(st2) => sb_state_valid(st2),
            Err(_) => true,
        },
{
    crate::command::lemma_parse_command_valid(line);
    crate::events::lemma_parse_storyboard_object_valid(spec_split_trim(line, ','));
    lemma_sb_close_valid(st);
    if st.open_sb is Some && spec_parse_command(line) is Ok {
        let sb = st.open_sb->Some_0;
        let c = spec_parse_command(line)->Ok_0;
        let cs2 = sb.commands.push(c);
        assert forall|i: int| 0 <= i < cs2.len() implies crate::command::cmd_valid(
            #[trigger] cs2[i],
        ) by {
            if i < sb.commands.len() {
                assert(cs2[i] == sb.commands[i]);
            } else {
                assert(cs2[i] == c);
            }
        }
    }
}

proof fn lemma_sb_scan_valid(lines: Seq<Seq<char>>, i: int, st: SbState)
    requires
        sb_state_valid(st),
    ensures
        match spec_sb_scan(lines, i, st) {
            Ok(st2) => sb_state_valid(st2),
            Err(_) => true,
        },
    decreases lines.len() - i,
{
    if 0 <= i < lines.len() {
        lemma_sb_step_valid(st, lines[i], i as usize);
        match spec_sb_step(st, lines[i], i as usize) {
            Ok(st2) => {
                lemma_sb_scan_valid(lines, i + 1, st2);
            },
            Err(_) => {},
        }
    }
}

/// A decoded storyboard is already canonical: every block of a successful
/// decode satisfies the serializer's precondition.
pub proof fn lemma_decode_storyboard_valid(text: Seq<char>, file_name: Seq<char>)
    ensures
        match spec_decode_storyboard(text, file_name) {
            Ok(sb) => forall|i: int|
                0 <= i < sb.storyboards.len() ==> storyboard_valid(#[trigger] sb.storyboards[i]),
            Err(_) => true,
        },
{
    let lines = spec_sanitize(text);
    if lines.len() > 0 && spec_contains_str(lines[0], "[Events]"@) {
        let init = SbState { done: Seq::<OsuStoryboardV>::empty(), open_sb: None };
        assert(sb_state_valid(init));
        lemma_sb_scan_valid(lines, 1, init);
        match spec_sb_scan(lines, 1, init) {
            Ok(st) => {
                lemma_sb_close_valid(st);
            },
            Err(_) => {},
        }
    }
}

} // verus!
