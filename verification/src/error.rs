//! Errors of the dispatch core.
//!
//! Every error carries a kind and an ordered chain of textual causes; the
//! chain is what the hosting process prints when the dispatcher swallows a
//! plugin failure.

use vstd::prelude::*;

verus! {

/// The main crate-wide error kinds.
#[derive(Clone, Copy, Debug, PartialEq, Eq, Structural)]
pub enum ErrorKind {
    /// Connection error
    Connection,
    /// Thread spawn error
    ThreadSpawn,
    /// A Url error
    Url,
    /// A Tell error
    Tell,
    /// A Factoid error
    Factoid,
    /// A Quote error
    Quote,
    /// A Remind error
    Remind,
    /// A Counter error
    Counter,
}

impl ErrorKind {
    /// The text a kind displays as.
    pub open spec fn spec_description(self) -> Seq<char> {
        match self {
            ErrorKind::Connection => "A connection error occured"@,
            ErrorKind::ThreadSpawn => "Failed to spawn thread"@,
            ErrorKind::Url => "A Url error has occured"@,
            ErrorKind::Tell => "A Tell error has occured"@,
            ErrorKind::Factoid => "A Factoid error has occured"@,
            ErrorKind::Quote => "A Quote error has occured"@,
            ErrorKind::Remind => "A Remind error has occured"@,
            ErrorKind::Counter => "A Counter error has occured"@,
        }
    }

    /// The text a kind displays as.
    pub fn description(&self) -> (r: &'static str)
        ensures
            r@ == self.spec_description(),
    {
        match self {
            ErrorKind::Connection => "A connection error occured",
            ErrorKind::ThreadSpawn => "Failed to spawn thread",
            ErrorKind::Url => "A Url error has occured",
            ErrorKind::Tell => "A Tell error has occured",
            ErrorKind::Factoid => "A Factoid error has occured",
            ErrorKind::Quote => "A Quote error has occured",
            ErrorKind::Remind => "A Remind error has occured",
            ErrorKind::Counter => "A Counter error has occured",
        }
    }
}

/// The main crate-wide error type: a kind together with the chain of causes
/// that led to it, outermost first.
#[derive(Clone, Debug)]
pub struct FrippyError {
    kind: ErrorKind,
    causes: Vec<String>,
}

/// The chain of causes rendered as `": cause1: cause2..."`.
pub open spec fn chain_text(causes: Seq<Seq<char>>) -> Seq<char>
    decreases causes.len(),
{
    if causes.len() == 0 {
        Seq::empty()
    } else {
        ": "@ + causes[0] + chain_text(causes.drop_first())
    }
}

/// Appending one cause to a chain extends its text on the right.
proof fn lemma_chain_text_push(causes: Seq<Seq<char>>, c: Seq<char>)
    ensures
        chain_text(causes.push(c)) == chain_text(causes) + ": "@ + c,
    decreases causes.len(),
{
    if causes.len() == 0 {
        assert(causes.push(c).drop_first() =~= Seq::<Seq<char>>::empty());
        assert(causes.push(c)[0] == c);
        assert(chain_text(causes.push(c)) == ": "@ + causes.push(c)[0] + chain_text(
            causes.push(c).drop_first(),
        ));
        assert(chain_text(Seq::<Seq<char>>::empty()) == Seq::<char>::empty());
        assert(chain_text(causes.push(c)) =~= ": "@ + c);
        assert(chain_text(causes) + ": "@ + c =~= ": "@ + c);
    } else {
        assert(causes.push(c).drop_first() =~= causes.drop_first().push(c));
        lemma_chain_text_push(causes.drop_first(), c);
        assert(chain_text(causes.push(c)) =~= chain_text(causes) + ": "@ + c);
    }
}

impl FrippyError {
    /// The kind of the error.
    pub closed spec fn spec_kind(self) -> ErrorKind {
        self.kind
    }

    /// The chain of causes, outermost first.
    pub closed spec fn spec_causes(self) -> Seq<Seq<char>> {
        self.causes.deep_view()
    }

    /// An error of the given kind with no cause.
    pub fn new(kind: ErrorKind) -> (r: FrippyError)
        ensures
            r.spec_kind() == kind,
            r.spec_causes() == Seq::<Seq<char>>::empty(),
    {
        let r = FrippyError { kind, causes: Vec::new() };
        proof {
            assert(r.spec_causes() =~= Seq::<Seq<char>>::empty());
        }
        r
    }

    /// An error of the given kind caused by the given text.
    pub fn with_cause(kind: ErrorKind, cause: String) -> (r: FrippyError)
        ensures
            r.spec_kind() == kind,
            r.spec_causes() =~= seq![cause@],
    {
        let mut causes: Vec<String> = Vec::new();
        causes.push(cause);
        let r = FrippyError { kind, causes };
        proof {
            assert(r.spec_causes() =~= seq![cause@]);
        }
        r
    }

    /// Adds one more cause at the end of the chain.
    pub fn push_cause(&mut self, cause: String)
        ensures
            final(self).spec_kind() == old(self).spec_kind(),
            final(self).spec_causes() =~= old(self).spec_causes().push(cause@),
    {
        self.causes.push(cause);
    }

    /// The kind of the error.
    pub fn kind(&self) -> (r: ErrorKind)
        ensures
            r == self.spec_kind(),
    {
        self.kind
    }

    /// The full text of the error: the kind's description followed by every
    /// cause in the chain.
    pub open spec fn spec_text(self) -> Seq<char> {
        self.spec_kind().spec_description() + chain_text(self.spec_causes())
    }
}

/// Renders an error with its full cause chain, as the hosting process logs it.
pub fn log_error(e: &FrippyError) -> (r: String)
    ensures
        r@ == e.spec_text(),
{
    let mut text: String = e.kind().description().to_owned();
    let mut i: usize = 0;
    proof {
        assert(e.spec_causes().take(0) =~= Seq::<Seq<char>>::empty());
    }
    while i < e.causes.len()
        invariant
            0 <= i <= e.causes.len(),
            e.spec_causes().len() == e.causes.len(),
            text@ == e.spec_kind().spec_description() + chain_text(e.spec_causes().take(i as int)),
        decreases e.causes.len() - i,
    {
        text.append(": ");
        text.append(e.causes[i].as_str());
        proof {
            lemma_chain_text_push(e.spec_causes().take(i as int), e.spec_causes()[i as int]);
            assert(e.spec_causes().take(i as int).push(e.spec_causes()[i as int]) =~= e
                .spec_causes()
                .take(i as int + 1));
        }
        i = i + 1;
    }
    proof {
        assert(e.spec_causes().take(e.causes.len() as int) =~= e.spec_causes());
    }
    text
}

} // verus!
