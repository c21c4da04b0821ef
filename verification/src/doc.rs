//! Value materialization: reducing the parser's event sequence into a
//! [`JsonValue`] tree by push/pop against a value stack that mirrors the
//! parser's context stack, and the whole-document convenience entry point.
use vstd::prelude::*;

use crate::event::GEvent;
use crate::event::GPErr;
use crate::event::ParseError;
use crate::event::ParseEvent;
use crate::event::ScalarValue;
use crate::lex::Cursor;
use crate::machine::EvStep;
use crate::machine::PState;
use crate::machine::init_pstate;
use crate::machine::lemma_next_event_bounds;
use crate::machine::next_event;
use crate::parser::StreamingParser;
use crate::parser::parse_streaming;
use crate::value::GJson;
use crate::value::JsonValue;
use crate::value::gview_entries;
use crate::value::gview_seq;
use crate::value::lemma_gview_entries;
use crate::value::lemma_gview_seq;
use vstd::pervasive::VecAdditionalExecFns;

verus! {

/// A value-stack frame: an array being filled, or an object being filled
/// together with its pending key (remembered from the last `Key` event).
pub enum GFrame {
    GArrF(Seq<GJson>),
    GObjF(Seq<(Seq<char>, GJson)>, Option<Seq<char>>),
}

/// Attaching a completed value: to nothing (the document's value), to the
/// innermost array, or to the innermost object under its pending key.
pub enum Attach {
    ADone(GJson),
    AMore(Seq<GFrame>),
}

/// Object entries have pairwise distinct keys.
pub open spec fn entries_unique(es: Seq<(Seq<char>, GJson)>) -> bool {
    forall|i: int, j: int| 0 <= i < j < es.len() ==> es[i].0 != es[j].0
}

/// Every object frame on the stack has distinct keys.
pub open spec fn gframes_wf(fs: Seq<GFrame>) -> bool {
    forall|i: int|
        0 <= i < fs.len() ==> ((#[trigger] fs[i]) matches GFrame::GObjF(es, _) ==> entries_unique(
            es,
        ))
}

/// Inserts a key/value pair: replaces the value of an existing key in
/// place, appends a fresh key at the end.
pub open spec fn obj_insert(es: Seq<(Seq<char>, GJson)>, k: Seq<char>, v: GJson) -> Seq<
    (Seq<char>, GJson),
> {
    if exists|i: int| 0 <= i < es.len() && es[i].0 == k {
        let i = choose|i: int| 0 <= i < es.len() && es[i].0 == k;
        es.update(i, (k, v))
    } else {
        es.push((k, v))
    }
}

/// Attaches a completed value to the top of the value stack.
pub open spec fn attach(frames: Seq<GFrame>, v: GJson) -> Attach {
    if frames.len() == 0 {
        Attach::ADone(v)
    } else {
        match frames.last() {
            GFrame::GArrF(es) => Attach::AMore(
                frames.update(frames.len() - 1, GFrame::GArrF(es.push(v))),
            ),
            GFrame::GObjF(es, key) => match key {
                Option::Some(k) => Attach::AMore(
                    frames.update(frames.len() - 1, GFrame::GObjF(obj_insert(es, k, v), Option::None)),
                ),
                Option::None => Attach::AMore(frames),
            },
        }
    }
}

/// Remembers a key on the innermost object frame.
pub open spec fn set_key(frames: Seq<GFrame>, k: Seq<char>) -> Seq<GFrame> {
    if frames.len() > 0 {
        match frames.last() {
            GFrame::GObjF(es, _) => frames.update(
                frames.len() - 1,
                GFrame::GObjF(es, Option::Some(k)),
            ),
            GFrame::GArrF(_) => frames,
        }
    } else {
        frames
    }
}

/// What materializing a document yields: the value, or the error that
/// ended the event sequence.
pub enum DocRes {
    DOk(GJson),
    DErr(GPErr),
}

/// Folds the event sequence from the given cursor and state into a value:
/// containers push frames, keys are remembered, each completed value is
/// attached to its parent, and the clean end yields the completed document.
pub open spec fn run_doc(
    s: Seq<char>,
    cur: Cursor,
    st: PState,
    frames: Seq<GFrame>,
    got: Option<GJson>,
) -> DocRes
    decreases s.len() - cur.pos when cur.pos >= 0 via run_doc_decreases
{
    match next_event(s, cur, st) {
        EvStep::Fin { .. } => match got {
            Option::Some(v) => DocRes::DOk(v),
            Option::None => DocRes::DErr(GPErr::GUnexpectedEnd { line: 0, col: 0 }),
        },
        EvStep::Stop { err } => DocRes::DErr(err),
        EvStep::Next { ev, cur: c2, st: st2 } => match ev {
            GEvent::GStartObj => run_doc(
                s,
                c2,
                st2,
                frames.push(GFrame::GObjF(Seq::empty(), Option::None)),
                got,
            ),
            GEvent::GStartArr => run_doc(s, c2, st2, frames.push(GFrame::GArrF(Seq::empty())), got),
            GEvent::GKey(k) => run_doc(s, c2, st2, set_key(frames, k), got),
            GEvent::GEndObj => {
                if frames.len() == 0 {
                    DocRes::DErr(GPErr::GUnexpectedEnd { line: 0, col: 0 })
                } else {
                    let v = match frames.last() {
                        GFrame::GArrF(es) => GJson::GArr(es),
                        GFrame::GObjF(es, _) => GJson::GObj(es),
                    };
                    match attach(frames.drop_last(), v) {
                        Attach::ADone(v2) => run_doc(s, c2, st2, Seq::empty(), Option::Some(v2)),
                        Attach::AMore(fr) => run_doc(s, c2, st2, fr, got),
                    }
                }
            },
            GEvent::GEndArr => {
                if frames.len() == 0 {
                    DocRes::DErr(GPErr::GUnexpectedEnd { line: 0, col: 0 })
                } else {
                    let v = match frames.last() {
                        GFrame::GArrF(es) => GJson::GArr(es),
                        GFrame::GObjF(es, _) => GJson::GObj(es),
                    };
                    match attach(frames.drop_last(), v) {
                        Attach::ADone(v2) => run_doc(s, c2, st2, Seq::empty(), Option::Some(v2)),
                        Attach::AMore(fr) => run_doc(s, c2, st2, fr, got),
                    }
                }
            },
            GEvent::GNull => match attach(frames, GJson::GNull) {
                Attach::ADone(v2) => run_doc(s, c2, st2, Seq::empty(), Option::Some(v2)),
                Attach::AMore(fr) => run_doc(s, c2, st2, fr, got),
            },
            GEvent::GBool(b) => match attach(frames, GJson::GBool(b)) {
                Attach::ADone(v2) => run_doc(s, c2, st2, Seq::empty(), Option::Some(v2)),
                Attach::AMore(fr) => run_doc(s, c2, st2, fr, got),
            },
            GEvent::GNum(t) => match attach(frames, GJson::GNum(t)) {
                Attach::ADone(v2) => run_doc(s, c2, st2, Seq::empty(), Option::Some(v2)),
                Attach::AMore(fr) => run_doc(s, c2, st2, fr, got),
            },
            GEvent::GStr(t) => match attach(frames, GJson::GStr(t)) {
                Attach::ADone(v2) => run_doc(s, c2, st2, Seq::empty(), Option::Some(v2)),
                Attach::AMore(fr) => run_doc(s, c2, st2, fr, got),
            },
        },
    }
}

#[via_fn]
proof fn run_doc_decreases(
    s: Seq<char>,
    cur: Cursor,
    st: PState,
    frames: Seq<GFrame>,
    got: Option<GJson>,
) {
    lemma_next_event_bounds(s, cur, st);
}

/// What materializing the whole input from the start yields.
pub open spec fn doc_of(s: Seq<char>) -> DocRes {
    run_doc(
        s,
        Cursor { pos: 0, line: 1, col: 1 },
        init_pstate(),
        Seq::empty(),
        Option::None,
    )
}


/// An executable value-stack frame.
enum Frame {
    ArrF(Vec<JsonValue>),
    ObjF(Vec<(String, JsonValue)>, Option<String>),
}

/// The mathematical frame an executable frame denotes.
spec fn fview(f: Frame) -> GFrame {
    match f {
        Frame::ArrF(v) => GFrame::GArrF(gview_seq(v@)),
        Frame::ObjF(es, k) => GFrame::GObjF(
            gview_entries(es@),
            match k {
                Option::Some(s) => Option::Some(s@),
                Option::None => Option::None,
            },
        ),
    }
}

/// The mathematical frames an executable stack denotes.
spec fn frames_view(fs: Seq<Frame>) -> Seq<GFrame> {
    Seq::new(fs.len(), |i: int| fview(fs[i]))
}

/// The mathematical value of the completed document, if any.
spec fn got_view(g: Option<JsonValue>) -> Option<GJson> {
    match g {
        Option::Some(v) => Option::Some(v.gview()),
        Option::None => Option::None,
    }
}

/// Inserts a key/value pair into an entry list with distinct keys:
/// replaces in place if the key exists, appends otherwise.
#[verifier::loop_isolation(false)]
fn obj_insert_exec(es: &mut Vec<(String, JsonValue)>, k: String, v: JsonValue)
    requires
        entries_unique(gview_entries(old(es)@)),
    ensures
        gview_entries(final(es)@) == obj_insert(gview_entries(old(es)@), k@, v.gview()),
        entries_unique(gview_entries(final(es)@)),
{
    proof {
        lemma_gview_entries(es@);
    }
    let ghost ges = gview_entries(old(es)@);
    let n = es.len();
    let mut i: usize = 0;
    while i < n
        invariant
            n == es@.len(),
            i <= n,
            es@ == old(es)@,
            forall|j: int| 0 <= j < i ==> ges[j].0 != k@,
        decreases n - i,
    {
        if es[i].0 == k {
            let ghost idx = i as int;
            es.set(i, (k, v));
            proof {
                lemma_gview_entries(es@);
                assert(gview_entries(es@) =~= ges.update(idx, (k@, v.gview())));
                let ci = choose|j: int| 0 <= j < ges.len() && ges[j].0 == k@;
                assert(ges[idx].0 == k@);
                assert(0 <= ci < ges.len() && ges[ci].0 == k@);
                assert(ci == idx);
            }
            return ;
        }
        i = i + 1;
    }
    es.push((k, v));
    proof {
        lemma_gview_entries(es@);
        assert(gview_entries(es@) =~= ges.push((k@, v.gview())));
        assert(!(exists|j: int| 0 <= j < ges.len() && ges[j].0 == k@));
    }
}

/// Attaches a completed value to the top of the executable value stack.
fn attach_value(frames: &mut Vec<Frame>, got: &mut Option<JsonValue>, v: JsonValue)
    requires
        gframes_wf(frames_view(old(frames)@)),
    ensures
        match attach(frames_view(old(frames)@), v.gview()) {
            Attach::ADone(gv) => {
                &&& got_view(*final(got)) == Option::Some(gv)
                &&& frames_view(final(frames)@) == Seq::<GFrame>::empty()
            },
            Attach::AMore(fr) => frames_view(final(frames)@) == fr && *final(got) == *old(got),
        },
        gframes_wf(frames_view(final(frames)@)),
{
    let ghost gfs = frames_view(old(frames)@);
    if frames.len() == 0 {
        *got = Some(v);
        proof {
            assert(frames_view(frames@) =~= Seq::<GFrame>::empty());
        }
    } else {
        let f = frames.pop();
        match f {
            Option::Some(fr) => match fr {
                Frame::ArrF(mut es) => {
                    proof {
                        lemma_gview_seq(es@);
                    }
                    let ghost ges = gview_seq(es@);
                    es.push(v);
                    proof {
                        lemma_gview_seq(es@);
                        assert(gview_seq(es@) =~= ges.push(v.gview()));
                    }
                    frames.push(Frame::ArrF(es));
                    proof {
                        assert(frames_view(frames@) =~= gfs.update(
                            gfs.len() - 1,
                            GFrame::GArrF(ges.push(v.gview())),
                        ));
                    }
                },
                Frame::ObjF(mut es, key) => match key {
                    Option::Some(k) => {
                        proof {
                            assert(gfs.last() matches GFrame::GObjF(ges, _) ==> entries_unique(
                                ges,
                            ));
                        }
                        obj_insert_exec(&mut es, k, v);
                        frames.push(Frame::ObjF(es, None));
                        proof {
                            assert(frames_view(frames@) =~= gfs.update(
                                gfs.len() - 1,
                                GFrame::GObjF(gview_entries(es@), Option::None),
                            ));
                        }
                    },
                    Option::None => {
                        frames.push(Frame::ObjF(es, None));
                        proof {
                            assert(frames_view(frames@) =~= gfs);
                        }
                    },
                },
            },
            Option::None => {},
        }
    }
}

/// Remembers a key on the innermost (object) frame.
fn set_pending_key(frames: &mut Vec<Frame>, k: String)
    requires
        gframes_wf(frames_view(old(frames)@)),
    ensures
        frames_view(final(frames)@) == set_key(frames_view(old(frames)@), k@),
        gframes_wf(frames_view(final(frames)@)),
{
    let ghost gfs = frames_view(old(frames)@);
    if frames.len() == 0 {
        return ;
    }
    let f = frames.pop();
    match f {
        Option::Some(fr) => match fr {
            Frame::ObjF(es, _) => {
                frames.push(Frame::ObjF(es, Some(k)));
                proof {
                    assert(frames_view(frames@) =~= set_key(gfs, k@));
                }
            },
            Frame::ArrF(es) => {
                frames.push(Frame::ArrF(es));
                proof {
                    assert(frames_view(frames@) =~= gfs);
                }
            },
        },
        Option::None => {},
    }
}

impl StreamingParser {
    /// Reduces the remaining event sequence of a fresh parser into a
    /// [`JsonValue`] tree: a pure, terminating fold over the events,
    /// yielding exactly what [`run_doc`] prescribes.
    #[verifier::loop_isolation(false)]
    #[verifier::rlimit(100)]
    #[verifier::spinoff_prover]
    pub fn materialize(&mut self) -> (r: Result<JsonValue, ParseError>)
        requires
            old(self).wf(),
            !old(self).is_finished(),
            old(self).pstate() == init_pstate(),
        ensures
            final(self).wf(),
            match run_doc(
                old(self).inp(),
                old(self).cursor(),
                old(self).pstate(),
                Seq::empty(),
                Option::None,
            ) {
                DocRes::DOk(gv) => r matches Ok(v) && v.gview() == gv,
                DocRes::DErr(ge) => r matches Err(e) && e.gview() == ge,
            },
    {
        let ghost s = self.inp();
        let ghost cur0 = self.cursor();
        let ghost st0 = self.pstate();
        let mut frames: Vec<Frame> = Vec::new();
        let mut got: Option<JsonValue> = None;
        proof {
            assert(frames_view(frames@) =~= Seq::<GFrame>::empty());
        }
        loop
            invariant
                self.wf(),
                !self.is_finished(),
                self.inp() == s,
                run_doc(s, cur0, st0, Seq::empty(), Option::None) == run_doc(
                    s,
                    self.cursor(),
                    self.pstate(),
                    frames_view(frames@),
                    got_view(got),
                ),
                gframes_wf(frames_view(frames@)),
            decreases s.len() - self.cursor().pos,
        {
            let ghost cpre = self.cursor();
            let ghost stpre = self.pstate();
            let ghost fpre = frames_view(frames@);
            let ghost gpre = got_view(got);
            proof {
                self.lemma_wf_cursor();
                lemma_next_event_bounds(s, cpre, stpre);
            }
            let ev = self.next_event();
            match ev {
                None => {
                    match got {
                        Some(v) => {
                            return Ok(v);
                        },
                        None => {
                            return Err(ParseError::UnexpectedEndOfInput { line: 0, column: 0 });
                        },
                    }
                },
                Some(Err(e)) => {
                    return Err(e);
                },
                Some(Ok(event)) => {
                    match event {
                        ParseEvent::StartObject => {
                            frames.push(Frame::ObjF(Vec::new(), None));
                            proof {
                                assert(gview_entries(Seq::<(String, JsonValue)>::empty())
                                    =~= Seq::<(Seq<char>, GJson)>::empty());
                                assert(frames_view(frames@) =~= fpre.push(
                                    GFrame::GObjF(Seq::empty(), Option::None),
                                ));
                            }
                        },
                        ParseEvent::StartArray => {
                            frames.push(Frame::ArrF(Vec::new()));
                            proof {
                                assert(gview_seq(Seq::<JsonValue>::empty())
                                    =~= Seq::<GJson>::empty());
                                assert(frames_view(frames@) =~= fpre.push(
                                    GFrame::GArrF(Seq::empty()),
                                ));
                            }
                        },
                        ParseEvent::Key(k) => {
                            set_pending_key(&mut frames, k);
                        },
                        ParseEvent::EndObject => {
                            let f = frames.pop();
                            match f {
                                Some(fr) => {
                                    let ghost gfr = fview(fr);
                                    proof {
                                        assert(gfr == fpre.last());
                                        assert(frames_view(frames@) =~= fpre.drop_last());
                                    }
                                    let v = match fr {
                                        Frame::ArrF(es) => JsonValue::Array(es),
                                        Frame::ObjF(es, _) => JsonValue::Object(es),
                                    };
                                    attach_value(&mut frames, &mut got, v);
                                },
                                None => {
                                    return Err(
                                        ParseError::UnexpectedEndOfInput { line: 0, column: 0 },
                                    );
                                },
                            }
                        },
                        ParseEvent::EndArray => {
                            let f = frames.pop();
                            match f {
                                Some(fr) => {
                                    let ghost gfr = fview(fr);
                                    proof {
                                        assert(gfr == fpre.last());
                                        assert(frames_view(frames@) =~= fpre.drop_last());
                                    }
                                    let v = match fr {
                                        Frame::ArrF(es) => JsonValue::Array(es),
                                        Frame::ObjF(es, _) => JsonValue::Object(es),
                                    };
                                    attach_value(&mut frames, &mut got, v);
                                },
                                None => {
                                    return Err(
                                        ParseError::UnexpectedEndOfInput { line: 0, column: 0 },
                                    );
                                },
                            }
                        },
                        ParseEvent::Scalar(sv) => {
                            let v = match sv {
                                ScalarValue::Null => JsonValue::Null,
                                ScalarValue::Boolean(b) => JsonValue::Boolean(b),
                                ScalarValue::Number(t) => JsonValue::Number(t),
                                ScalarValue::String(t) => JsonValue::String(t),
                            };
                            attach_value(&mut frames, &mut got, v);
                        },
                    }
                },
            }
        }
    }
}

/// Parses a whole document into a [`JsonValue`]: the convenience entry
/// point over the streaming parser and materialization. The length bound is
/// a machine limit: positions must fit the machine word.
pub fn parse_document(input: &str) -> (r: Result<JsonValue, ParseError>)
    requires
        input@.len() < usize::MAX,
    ensures
        match doc_of(input@) {
            DocRes::DOk(gv) => r matches Ok(v) && v.gview() == gv,
            DocRes::DErr(ge) => r matches Err(e) && e.gview() == ge,
        },
{
    let mut p = parse_streaming(input);
    p.materialize()
}

} // verus!
