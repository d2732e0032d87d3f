use vstd::prelude::*;
use vstd::string::*;
use crate::utils::{decimal, lemma_decimal_round_trip, parse_u32_from, spec_parse_u32, u32_to_string};

verus! {

/// What a message asks of the routing core that receives it.
#[derive(Debug, Clone, Copy, PartialEq, Eq, Structural)]
pub enum MessageKind {
    /// `preq`: a node looks for a parent.
    Preq,
    /// `pack`: a node offers itself as parent.
    Pack,
    /// `jreq`: a node asks the coordinator to let it join.
    Jreq,
    /// `jack`: the coordinator lets a node join.
    Jack,
    /// `rec`: the subtree below a lost parent is frozen.
    Rec,
    /// `recr`: a leaf of the frozen subtree answers.
    Recr,
    /// `tf`: the search for a new parent passes to a child.
    Tf,
    /// `fl`: the search has failed below a node.
    Fl,
    /// `R` and a number: a frozen node looks for a new parent; the number
    /// is the id of the node that started the reconfiguration.
    Reconnect(u32),
    /// `P` and a number: a node offers itself as new parent; the number is
    /// the root of its tree.
    Offer(u32),
    /// `R` or `P` without a number below 2^32 behind it.
    Malformed,
    /// `pset`: a node tells its new parent that it is now its child.
    Pset,
    /// `rset`: the root of the tree has changed.
    Rset,
    /// Anything else: a message of the node's user.
    User,
}

/// What a message asks, read as a core without reconfiguration reads it.
pub open spec fn join_kind(m: Seq<char>) -> MessageKind {
    if m == "preq"@ {
        MessageKind::Preq
    } else if m == "pack"@ {
        MessageKind::Pack
    } else if m == "jreq"@ {
        MessageKind::Jreq
    } else if m == "jack"@ {
        MessageKind::Jack
    } else {
        MessageKind::User
    }
}

/// What a message asks, read as the dynamic core reads it: the words of the
/// reconfiguration come before those of the join.
pub open spec fn message_kind(m: Seq<char>) -> MessageKind {
    if m == "rec"@ {
        MessageKind::Rec
    } else if m == "recr"@ {
        MessageKind::Recr
    } else if m == "tf"@ {
        MessageKind::Tf
    } else if m == "fl"@ {
        MessageKind::Fl
    } else if m.len() > 0 && m[0] == 'R' {
        match spec_parse_u32(m, 1) {
            Some(n) => MessageKind::Reconnect(n),
            None => MessageKind::Malformed,
        }
    } else if m.len() > 0 && m[0] == 'P' {
        match spec_parse_u32(m, 1) {
            Some(n) => MessageKind::Offer(n),
            None => MessageKind::Malformed,
        }
    } else if m == "pset"@ {
        MessageKind::Pset
    } else if m == "rset"@ {
        MessageKind::Rset
    } else {
        join_kind(m)
    }
}

/// Whether a message is one of the reconfiguration.
pub open spec fn is_rec_kind(k: MessageKind) -> bool {
    !(k is Preq || k is Pack || k is Jreq || k is Jack || k is User)
}

/// The text of a reconnect request of the reconfiguration that `init` began.
pub open spec fn reconnect_text(init: u32) -> Seq<char> {
    "R"@ + decimal(init as nat)
}

/// The text of a parent offer from a tree with root `root`.
pub open spec fn offer_text(root: u32) -> Seq<char> {
    "P"@ + decimal(root as nat)
}

fn is_word(message: &String, word: &str) -> (b: bool)
    ensures
        b == (message@ == word@),
{
    *message == String::from_str(word)
}

pub fn classify_join(message: &String) -> (k: MessageKind)
    ensures
        k == join_kind(message@),
{
    if is_word(message, "preq") {
        MessageKind::Preq
    } else if is_word(message, "pack") {
        MessageKind::Pack
    } else if is_word(message, "jreq") {
        MessageKind::Jreq
    } else if is_word(message, "jack") {
        MessageKind::Jack
    } else {
        MessageKind::User
    }
}

pub fn classify(message: &String) -> (k: MessageKind)
    ensures
        k == message_kind(message@),
{
    if is_word(message, "rec") {
        return MessageKind::Rec;
    }
    if is_word(message, "recr") {
        return MessageKind::Recr;
    }
    if is_word(message, "tf") {
        return MessageKind::Tf;
    }
    if is_word(message, "fl") {
        return MessageKind::Fl;
    }
    let text = message.as_str();
    if text.unicode_len() > 0 {
        let first = text.get_char(0);
        if first == 'R' {
            return match parse_u32_from(text, 1) {
                Some(n) => MessageKind::Reconnect(n),
                None => MessageKind::Malformed,
            };
        }
        if first == 'P' {
            return match parse_u32_from(text, 1) {
                Some(n) => MessageKind::Offer(n),
                None => MessageKind::Malformed,
            };
        }
    }
    if is_word(message, "pset") {
        MessageKind::Pset
    } else if is_word(message, "rset") {
        MessageKind::Rset
    } else {
        classify_join(message)
    }
}

/// Writes a reconnect request.
pub fn reconnect_message(init: u32) -> (m: String)
    ensures
        m@ == reconnect_text(init),
{
    let digits = u32_to_string(init);
    String::from_str("R").concat(digits.as_str())
}

/// Writes a parent offer.
pub fn offer_message(root: u32) -> (m: String)
    ensures
        m@ == offer_text(root),
{
    let digits = u32_to_string(root);
    String::from_str("P").concat(digits.as_str())
}

/// A node that reads a reconnect request or a parent offer finds the number
/// that the sender wrote.
pub proof fn lemma_numbered_messages_round_trip(n: u32)
    ensures
        message_kind(reconnect_text(n)) == MessageKind::Reconnect(n),
        message_kind(offer_text(n)) == MessageKind::Offer(n),
{
    reveal_strlit("R");
    reveal_strlit("P");
    reveal_strlit("rec");
    reveal_strlit("recr");
    reveal_strlit("tf");
    reveal_strlit("fl");
    lemma_decimal_round_trip(n as nat);
    let r = reconnect_text(n);
    let p = offer_text(n);
    assert(r[0] == 'R');
    assert(p[0] == 'P');
    assert(r.subrange(1, r.len() as int) =~= decimal(n as nat));
    assert(p.subrange(1, p.len() as int) =~= decimal(n as nat));
    assert("rec"@[0] == 'r' && "recr"@[0] == 'r' && "tf"@[0] == 't' && "fl"@[0] == 'f');
}

} // verus!
