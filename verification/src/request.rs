//! The requests of the protocol and their wire form.
//!
//! A request is one line: the opening of an XML element with its attributes
//! in single quotes. Text supplied by the caller is escaped, so that it
//! cannot end the attribute it stands in.

use vstd::prelude::*;
use vstd::utf8::encode_utf8;

verus! {

/// What a byte of caller-supplied text becomes inside an attribute value.
pub open spec fn escaped_byte(b: u8) -> Seq<u8> {
    if b == 0x26 {
        encode_utf8("&amp;"@)
    } else if b == 0x3C {
        encode_utf8("&lt;"@)
    } else if b == 0x3E {
        encode_utf8("&gt;"@)
    } else if b == 0x27 {
        encode_utf8("&apos;"@)
    } else if b == 0x22 {
        encode_utf8("&quot;"@)
    } else {
        seq![b]
    }
}

/// Caller-supplied text as it stands inside an attribute value: `&`, `<`,
/// `>`, `'` and `"` are replaced by their entities.
pub open spec fn escaped(text: Seq<u8>) -> Seq<u8>
    decreases text.len(),
{
    if text.len() == 0 {
        Seq::empty()
    } else {
        escaped(text.drop_last()) + escaped_byte(text.last())
    }
}

/// Whether `b` is one of the five bytes that are escaped.
pub open spec fn is_special(b: u8) -> bool {
    b == 0x26 || b == 0x3C || b == 0x3E || b == 0x27 || b == 0x22
}

/// The bytes of the five entities.
pub proof fn lemma_entities()
    ensures
        encode_utf8("&amp;"@) == seq![0x26u8, 0x61, 0x6D, 0x70, 0x3B],
        encode_utf8("&lt;"@) == seq![0x26u8, 0x6C, 0x74, 0x3B],
        encode_utf8("&gt;"@) == seq![0x26u8, 0x67, 0x74, 0x3B],
        encode_utf8("&apos;"@) == seq![0x26u8, 0x61, 0x70, 0x6F, 0x73, 0x3B],
        encode_utf8("&quot;"@) == seq![0x26u8, 0x71, 0x75, 0x6F, 0x74, 0x3B],
{
    reveal_strlit("&amp;");
    reveal_strlit("&lt;");
    reveal_strlit("&gt;");
    reveal_strlit("&apos;");
    reveal_strlit("&quot;");
    vstd::string::is_ascii_spec_bytes("&amp;");
    vstd::string::is_ascii_spec_bytes("&lt;");
    vstd::string::is_ascii_spec_bytes("&gt;");
    vstd::string::is_ascii_spec_bytes("&apos;");
    vstd::string::is_ascii_spec_bytes("&quot;");
    assert(encode_utf8("&amp;"@) =~= seq![0x26u8, 0x61, 0x6D, 0x70, 0x3B]);
    assert(encode_utf8("&lt;"@) =~= seq![0x26u8, 0x6C, 0x74, 0x3B]);
    assert(encode_utf8("&gt;"@) =~= seq![0x26u8, 0x67, 0x74, 0x3B]);
    assert(encode_utf8("&apos;"@) =~= seq![0x26u8, 0x61, 0x70, 0x6F, 0x73, 0x3B]);
    assert(encode_utf8("&quot;"@) =~= seq![0x26u8, 0x71, 0x75, 0x6F, 0x74, 0x3B]);
}

/// Escaped text holds no quote and no angle bracket: whatever the caller
/// supplied, it stays inside the attribute value it was written into.
pub proof fn lemma_escaped_stays_in_attribute(text: Seq<u8>)
    ensures
        forall|i: int|
            0 <= i < escaped(text).len() ==> {
                let b = #[trigger] escaped(text)[i];
                b != 0x27 && b != 0x22 && b != 0x3C && b != 0x3E
            },
    decreases text.len(),
{
    if text.len() > 0 {
        let front = escaped(text.drop_last());
        let back = escaped_byte(text.last());
        lemma_escaped_stays_in_attribute(text.drop_last());
        lemma_entities();
        assert forall|i: int| 0 <= i < escaped(text).len() implies {
            let b = #[trigger] escaped(text)[i];
            b != 0x27 && b != 0x22 && b != 0x3C && b != 0x3E
        } by {
            if i < front.len() {
                assert(escaped(text)[i] == front[i]);
            } else {
                assert(escaped(text)[i] == back[i - front.len()]);
            }
        }
    }
}

/// Text without any of the five bytes is written as it is.
pub proof fn lemma_escaped_plain(text: Seq<u8>)
    requires
        forall|i: int| 0 <= i < text.len() ==> !is_special(#[trigger] text[i]),
    ensures
        escaped(text) == text,
    decreases text.len(),
{
    if text.len() > 0 {
        let front = text.drop_last();
        assert forall|i: int| 0 <= i < front.len() implies !is_special(#[trigger] front[i]) by {
            assert(front[i] == text[i]);
        }
        lemma_escaped_plain(front);
        assert(!is_special(text.last()));
        assert(front + seq![text.last()] =~= text);
    }
}

/// Appends `text`, escaped, to `out`.
pub fn push_escaped(out: &mut Vec<u8>, text: &[u8])
    ensures
        final(out)@ == old(out)@ + escaped(text@),
{
    let mut i: usize = 0;
    while i < text.len()
        invariant
            i <= text@.len(),
            out@ == old(out)@ + escaped(text@.take(i as int)),
        decreases text@.len() - i,
    {
        let b: u8 = text[i];
        let ghost before = out@;
        if b == 0x26 {
            out.extend_from_slice("&amp;".as_bytes());
        } else if b == 0x3C {
            out.extend_from_slice("&lt;".as_bytes());
        } else if b == 0x3E {
            out.extend_from_slice("&gt;".as_bytes());
        } else if b == 0x27 {
            out.extend_from_slice("&apos;".as_bytes());
        } else if b == 0x22 {
            out.extend_from_slice("&quot;".as_bytes());
        } else {
            out.push(b);
        }
        proof {
            assert(out@ == before + escaped_byte(b));
            assert(text@.take(i + 1).drop_last() =~= text@.take(i as int));
            assert(text@.take(i + 1).last() == b);
            assert(out@ =~= old(out)@ + escaped(text@.take(i + 1)));
        }
        i += 1;
    }
    assert(text@.take(text@.len() as int) =~= text@);
}

/// The operations a plugin can ask of the simulator.
#[derive(Debug, Clone, Copy, PartialEq, Eq, Structural)]
pub enum Operation {
    SimulatorTime,
    SystemInfo,
    PlatformList,
    TrainList,
    TrainDetails,
    TrainTimetable,
    Ways,
}

impl Operation {
    /// The name of the element that asks for this operation.
    pub open spec fn tag(self) -> Seq<char> {
        match self {
            Operation::SimulatorTime => "simzeit"@,
            Operation::SystemInfo => "anlageninfo"@,
            Operation::PlatformList => "bahnsteigliste"@,
            Operation::TrainList => "zugliste"@,
            Operation::TrainDetails => "zugdetails"@,
            Operation::TrainTimetable => "zugfahrplan"@,
            Operation::Ways => "wege"@,
        }
    }

    /// Whether the request names a train.
    pub open spec fn takes_train(self) -> bool {
        self == Operation::TrainDetails || self == Operation::TrainTimetable
    }

    /// The closing tag that ends the reply, for the operations whose reply
    /// spans several lines.
    pub open spec fn closing_tag(self) -> Option<Seq<char>> {
        match self {
            Operation::SimulatorTime => None,
            Operation::SystemInfo => None,
            Operation::PlatformList => Some("</bahnsteigliste>"@),
            Operation::TrainList => Some("</zugliste>"@),
            Operation::TrainDetails => None,
            Operation::TrainTimetable => Some("</zugfahrplan>"@),
            Operation::Ways => Some("</wege>"@),
        }
    }

    /// The name of the element that asks for this operation.
    pub fn name(self) -> (r: &'static str)
        ensures
            r@ == self.tag(),
    {
        match self {
            Operation::SimulatorTime => "simzeit",
            Operation::SystemInfo => "anlageninfo",
            Operation::PlatformList => "bahnsteigliste",
            Operation::TrainList => "zugliste",
            Operation::TrainDetails => "zugdetails",
            Operation::TrainTimetable => "zugfahrplan",
            Operation::Ways => "wege",
        }
    }

    /// The closing tag that ends the reply, or `None` where the reply is
    /// one line.
    pub fn terminator(self) -> (r: Option<&'static str>)
        ensures
            match r {
                Some(tag) => self.closing_tag() == Some(tag@),
                None => self.closing_tag() is None,
            },
    {
        match self {
            Operation::SimulatorTime => None,
            Operation::SystemInfo => None,
            Operation::PlatformList => Some("</bahnsteigliste>"),
            Operation::TrainList => Some("</zugliste>"),
            Operation::TrainDetails => None,
            Operation::TrainTimetable => Some("</zugfahrplan>"),
            Operation::Ways => Some("</wege>"),
        }
    }
}

/// A request: an operation, and the train it is about where it names one.
#[derive(Debug, Clone, PartialEq, Eq)]
pub enum Request {
    SimulatorTime,
    SystemInfo,
    PlatformList,
    TrainList,
    TrainDetails(String),
    TrainTimetable(String),
    Ways,
}

/// The line that asks for `operation`, without its line end: the bare
/// element, or the element with the train's id, escaped, as `zid`.
pub open spec fn request_line(operation: Operation, train: Seq<char>) -> Seq<u8> {
    if operation.takes_train() {
        encode_utf8("<"@) + encode_utf8(operation.tag()) + encode_utf8(" zid='"@) + escaped(
            encode_utf8(train),
        ) + encode_utf8("' />"@)
    } else {
        encode_utf8("<"@) + encode_utf8(operation.tag()) + encode_utf8(" />"@)
    }
}

/// The line that registers a plugin, without its line end.
pub open spec fn registration_line(
    name: Seq<char>,
    author: Seq<char>,
    version: Seq<char>,
    description: Seq<char>,
) -> Seq<u8> {
    encode_utf8("<register name='"@) + escaped(encode_utf8(name)) + encode_utf8("' autor='"@)
        + escaped(encode_utf8(author)) + encode_utf8("' version='"@) + escaped(
        encode_utf8(version),
    ) + encode_utf8("' protokoll='1' text='"@) + escaped(encode_utf8(description)) + encode_utf8(
        "' />"@,
    )
}

impl Request {
    /// The operation this request asks for.
    pub open spec fn spec_operation(&self) -> Operation {
        match *self {
            Request::SimulatorTime => Operation::SimulatorTime,
            Request::SystemInfo => Operation::SystemInfo,
            Request::PlatformList => Operation::PlatformList,
            Request::TrainList => Operation::TrainList,
            Request::TrainDetails(_) => Operation::TrainDetails,
            Request::TrainTimetable(_) => Operation::TrainTimetable,
            Request::Ways => Operation::Ways,
        }
    }

    /// The id of the train this request is about; empty where it names none.
    pub open spec fn train(&self) -> Seq<char> {
        match *self {
            Request::TrainDetails(id) => id@,
            Request::TrainTimetable(id) => id@,
            _ => Seq::empty(),
        }
    }

    /// The bytes of this request on the wire, without the line end.
    pub open spec fn wire(&self) -> Seq<u8> {
        request_line(self.spec_operation(), self.train())
    }

    /// The operation this request asks for.
    #[verifier::when_used_as_spec(spec_operation)]
    pub fn operation(&self) -> (r: Operation)
        ensures
            r == self.spec_operation(),
    {
        match self {
            Request::SimulatorTime => Operation::SimulatorTime,
            Request::SystemInfo => Operation::SystemInfo,
            Request::PlatformList => Operation::PlatformList,
            Request::TrainList => Operation::TrainList,
            Request::TrainDetails(_) => Operation::TrainDetails,
            Request::TrainTimetable(_) => Operation::TrainTimetable,
            Request::Ways => Operation::Ways,
        }
    }

    /// Writes this request as it goes on the wire, without the line end.
    pub fn encode(&self) -> (r: Vec<u8>)
        ensures
            r@ == self.wire(),
    {
        let mut out: Vec<u8> = Vec::new();
        out.extend_from_slice("<".as_bytes());
        match self {
            Request::TrainDetails(id) => {
                out.extend_from_slice("zugdetails".as_bytes());
                out.extend_from_slice(" zid='".as_bytes());
                push_escaped(&mut out, id.as_str().as_bytes());
                out.extend_from_slice("' />".as_bytes());
            },
            Request::TrainTimetable(id) => {
                out.extend_from_slice("zugfahrplan".as_bytes());
                out.extend_from_slice(" zid='".as_bytes());
                push_escaped(&mut out, id.as_str().as_bytes());
                out.extend_from_slice("' />".as_bytes());
            },
            _ => {
                out.extend_from_slice(self.operation().name().as_bytes());
                out.extend_from_slice(" />".as_bytes());
            },
        }
        assert(out@ =~= self.wire());
        out
    }
}

/// Writes the line that registers a plugin, without the line end.
pub fn register_request(name: &str, author: &str, version: &str, description: &str) -> (r: Vec<u8>)
    ensures
        r@ == registration_line(name@, author@, version@, description@),
{
    let mut out: Vec<u8> = Vec::new();
    out.extend_from_slice("<register name='".as_bytes());
    push_escaped(&mut out, name.as_bytes());
    out.extend_from_slice("' autor='".as_bytes());
    push_escaped(&mut out, author.as_bytes());
    out.extend_from_slice("' version='".as_bytes());
    push_escaped(&mut out, version.as_bytes());
    out.extend_from_slice("' protokoll='1' text='".as_bytes());
    push_escaped(&mut out, description.as_bytes());
    out.extend_from_slice("' />".as_bytes());
    assert(out@ =~= registration_line(name@, author@, version@, description@));
    out
}

} // verus!
