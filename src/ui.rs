//! The vocabulary the terminal UI renders: focus, input modes, chat entry
//! sources and transfer rows.
use crate::transfer::TransferDirection;
use vstd::prelude::*;
use vstd::string::StrSliceExecFns;

verus! {

/// Which side panel has the keyboard.
#[derive(Debug, Clone, Copy, PartialEq, Eq, Structural)]
pub enum PanelFocus {
    NoPanel,
    Discovered,
    Saved,
}

/// What the input line is collecting.
#[derive(Debug, Clone, Copy, PartialEq, Eq, Structural)]
pub enum Mode {
    Chat,
    File,
    ListenAddress,
    ListenPassword,
    ConnectAddress,
    ConnectPassword,
    Username,
    DiscoveryNetwork,
    IncomingFile(u64),
}

/// Where a chat entry comes from.
#[derive(Debug, Clone, PartialEq, Eq)]
pub enum MessageDirection {
    Incoming(String),
    Outgoing(String),
    System,
    Warning,
    Error,
}

impl MessageDirection {
    /// The label shown beside an entry: the author for chat text, else the kind.
    pub fn source(&self) -> (r: &str)
        ensures
            r@ == match self {
                MessageDirection::Incoming(n) => n@,
                MessageDirection::Outgoing(n) => n@,
                MessageDirection::System => "system"@,
                MessageDirection::Warning => "warning"@,
                MessageDirection::Error => "error"@,
            },
    {
        match self {
            MessageDirection::Incoming(name) => name.as_str(),
            MessageDirection::Outgoing(name) => name.as_str(),
            MessageDirection::System => "system",
            MessageDirection::Warning => "warning",
            MessageDirection::Error => "error",
        }
    }
}

/// One row of the transfers panel.
#[derive(Debug, Clone)]
pub struct TransferState {
    pub id: u64,
    pub name: String,
    pub direction: TransferDirection,
    pub transferred: u64,
    pub total: u64,
    pub path: Option<String>,
    pub completed: bool,
}


/// The characters of each string.
pub open spec fn texts(strings: Seq<String>) -> Seq<Seq<char>> {
    strings.map_values(|s: String| s@)
}

/// `p` is a prefix of every string in `strs`.
pub open spec fn common_prefix(p: Seq<char>, strs: Seq<Seq<char>>) -> bool {
    forall|i: int| 0 <= i < strs.len() ==> p.len() <= (#[trigger] strs[i]).len() && strs[i].take(
        p.len() as int,
    ) == p
}

/// The longest string that starts every string in the list; empty for an
/// empty list.
pub fn longest_common_prefix(strings: &[String]) -> (r: String)
    ensures
        common_prefix(r@, texts(strings@)),
        forall|q: Seq<char>| #[trigger] common_prefix(q, texts(strings@)) && strings@.len() > 0
            ==> q.len() <= r@.len(),
        strings@.len() == 0 ==> r@.len() == 0,
{
    let ghost strs = texts(strings@);
    if strings.len() == 0 {
        return String::new();
    }
    let first = strings[0].as_str();
    let mut k: usize = first.unicode_len();
    let mut i: usize = 1;
    assert(strs[0] == first@);
    assert forall|q: Seq<char>| #[trigger] common_prefix(q, strs.take(1)) implies q.len() <= k by {
        assert(strs.take(1)[0] == first@);
    }
    while i < strings.len()
        invariant
            strs == texts(strings@),
            strings@.len() > 0,
            strs[0] == first@,
            1 <= i <= strings@.len(),
            k <= first@.len(),
            forall|j: int| 0 <= j < i ==> k <= (#[trigger] strs[j]).len() && strs[j].take(k as int)
                == first@.take(k as int),
            forall|q: Seq<char>| #[trigger] common_prefix(q, strs.take(i as int)) ==> q.len() <= k,
        decreases strings@.len() - i,
    {
        let other = strings[i].as_str();
        assert(strs[i as int] == other@);
        let n = other.unicode_len();
        let mut m: usize = 0;
        while m < k && m < n && first.get_char(m) == other.get_char(m)
            invariant
                m <= k <= first@.len(),
                n == other@.len(),
                m <= n,
                forall|t: int| 0 <= t < m ==> first@[t] == other@[t],
            decreases k - m,
        {
            m = m + 1;
        }
        let ghost old_k = k;
        k = m;
        assert(other@.take(k as int) =~= first@.take(k as int));
        assert forall|j: int| 0 <= j < i + 1 implies k <= (#[trigger] strs[j]).len() && strs[j].take(
            k as int,
        ) == first@.take(k as int) by {
            if j < i {
                assert(strs[j].take(old_k as int) == first@.take(old_k as int));
                assert(strs[j].take(k as int) =~= strs[j].take(old_k as int).take(k as int));
                assert(first@.take(k as int) =~= first@.take(old_k as int).take(k as int));
            }
        }
        assert forall|q: Seq<char>| common_prefix(q, strs.take(i + 1)) implies q.len() <= k by {
            assert(common_prefix(q, strs.take(i as int))) by {
                assert forall|j: int| 0 <= j < strs.take(i as int).len() implies q.len() <= (
                #[trigger] strs.take(i as int)[j]).len() && strs.take(i as int)[j].take(q.len() as int)
                    == q by {
                    assert(strs.take(i as int)[j] == strs.take(i + 1)[j]);
                }
            }
            assert(strs.take(i + 1)[0] == first@);
            assert(strs.take(i + 1)[i as int] == other@);
            if q.len() > k {
                if k < old_k && k < n {
                    assert(first@[k as int] != other@[k as int]);
                    assert(q[k as int] == first@.take(q.len() as int)[k as int]);
                    assert(q[k as int] == other@.take(q.len() as int)[k as int]);
                }
            }
        }
        i = i + 1;
    }
    assert(strs.take(strings@.len() as int) =~= strs);
    let r = first.substring_char(0, k);
    let out = r.to_owned();
    assert(out@ =~= first@.take(k as int));
    out
}

} // verus!
