//! How the node is set up.
use vstd::prelude::*;
use vstd::string::*;
use crate::encoding::{self, base64_decode, base64_encode};
use crate::text::{self, same_text, to_lowercase};

verus! {

/// The kinds of stores that a node can keep its data in.
#[derive(Clone, Copy, PartialEq, Eq, Structural, Debug)]
pub enum StoreType {
    FlatFS,
    Sled,
}

/// The kind of store that a name in lower case stands for.
pub open spec fn store_named(name: Seq<char>) -> Option<StoreType> {
    if name == "flatfs"@ {
        Some(StoreType::FlatFS)
    } else if name == "sled"@ {
        Some(StoreType::Sled)
    } else {
        None
    }
}

/// The kind of store that a name in lower case stands for.
pub fn named_store(name: &str) -> (r: Option<StoreType>)
    ensures
        r == store_named(name@),
{
    if same_text(name, "flatfs") {
        Some(StoreType::FlatFS)
    } else if same_text(name, "sled") {
        Some(StoreType::Sled)
    } else {
        None
    }
}

impl StoreType {
    /// The kind of store that a name stands for, in whatever case it is written. Any other name is
    /// not supported.
    pub fn from_str(s: &str) -> (r: Option<StoreType>)
        ensures
            r == store_named(text::lowercase(s@)),
    {
        named_store(to_lowercase(s).as_str())
    }
}

/// The path of the node: that of the environment or that of the command line. Where both are given
/// they have to be the same one.
pub fn choose_path(env: Option<String>, cli: Option<String>, same: bool) -> (r: Option<String>)
    ensures
        r == (match (env, cli) {
            (Some(path), None) => Some(path),
            (None, Some(path)) => Some(path),
            (Some(path), Some(_)) => if same {
                Some(path)
            } else {
                None
            },
            (None, None) => None,
        }),
{
    match (env, cli) {
        (Some(path), None) => Some(path),
        (None, Some(path)) => Some(path),
        (Some(path), Some(_)) => if same {
            Some(path)
        } else {
            None
        },
        (None, None) => None,
    }
}

/// Where the key pair of the node comes from.
#[derive(Clone, Copy, PartialEq, Eq, Structural, Debug)]
pub enum KeypairSource {
    /// It is read from the file.
    Read,
    /// It is made, and written to the file.
    GenerateAndWrite,
    /// It is made.
    Generate,
}

/// Where the key pair of the node comes from, when a file may be named for it and may be there.
pub fn keypair_source(named: bool, is_file: bool) -> (r: KeypairSource)
    ensures
        r == (if !named {
            KeypairSource::Generate
        } else if is_file {
            KeypairSource::Read
        } else {
            KeypairSource::GenerateAndWrite
        }),
{
    if !named {
        KeypairSource::Generate
    } else if is_file {
        KeypairSource::Read
    } else {
        KeypairSource::GenerateAndWrite
    }
}

/// The text of a key pair, from its bytes.
pub fn encode_kp(bytes: &Vec<u8>) -> (r: String)
    requires
        bytes@.len() <= usize::MAX / 4,
    ensures
        r@ == encoding::base64_encoded(bytes@),
        encoding::base64_decoded(r@) == Some(bytes@),
{
    base64_encode(bytes)
}

/// The bytes of a key pair, from its text, where it is one.
pub fn decode_kp(kp: &str) -> (r: Option<Vec<u8>>)
    ensures
        match r {
            Some(bytes) => encoding::base64_decoded(kp@) == Some(bytes@),
            None => encoding::base64_decoded(kp@) is None,
        },
{
    base64_decode(kp)
}

/// The parts of a text between its commas, in order.
pub open spec fn comma_parts(s: Seq<char>) -> Seq<Seq<char>>
    decreases s.len(),
{
    if s.len() == 0 {
        seq![Seq::<char>::empty()]
    } else {
        let rest = comma_parts(s.drop_last());
        if s.last() == ',' {
            rest.push(Seq::empty())
        } else {
            rest.update(rest.len() - 1, rest.last().push(s.last()))
        }
    }
}

/// What texts hold.
pub open spec fn texts(list: Seq<String>) -> Seq<Seq<char>> {
    list.map_values(|s: String| s@)
}

/// The parts of a text between its commas.
pub fn split_commas(s: &str) -> (r: Vec<String>)
    ensures
        texts(r@) == comma_parts(s@),
{
    let n: usize = s.unicode_len();
    let mut done: Vec<String> = Vec::new();
    let mut start: usize = 0;
    let mut i: usize = 0;
    proof {
        assert(s@.take(0) == Seq::<char>::empty());
        assert(texts(done@) + seq![s@.subrange(0, 0)] == comma_parts(s@.take(0)));
    }
    while i < n
        invariant
            n == s@.len(),
            start <= i <= n,
            texts(done@) + seq![s@.subrange(start as int, i as int)] == comma_parts(
                s@.take(i as int),
            ),
        decreases n - i,
    {
        let ghost before = done@;
        let ghost parts = texts(before) + seq![s@.subrange(start as int, i as int)];
        proof {
            assert(s@.take(i + 1).drop_last() == s@.take(i as int));
            assert(s@.take(i + 1).last() == s@[i as int]);
            assert(parts.len() == texts(before).len() + 1);
        }
        if s.get_char(i) == ',' {
            let part = s.substring_char(start, i).to_owned();
            done.push(part);
            start = i + 1;
            proof {
                assert(texts(done@) == parts);
                assert(s@.subrange(start as int, i + 1) == Seq::<char>::empty());
                assert(texts(done@) + seq![s@.subrange(start as int, i + 1)] == parts.push(
                    Seq::empty(),
                ));
            }
        } else {
            proof {
                assert(s@.subrange(start as int, i + 1) == s@.subrange(
                    start as int,
                    i as int,
                ).push(s@[i as int]));
                assert(texts(done@) + seq![s@.subrange(start as int, i + 1)] == parts.update(
                    parts.len() - 1,
                    parts.last().push(s@[i as int]),
                ));
            }
        }
        i = i + 1;
    }
    let part = s.substring_char(start, n).to_owned();
    let ghost before = done@;
    done.push(part);
    proof {
        assert(s@.take(n as int) == s@);
        assert(texts(done@) == texts(before) + seq![s@.subrange(start as int, n as int)]);
    }
    done
}

/// The addresses on which a node listens where none is given.
pub open spec fn default_addresses() -> Seq<Seq<char>> {
    seq!["/ip4/0.0.0.0/tcp/0"@, "/ip4/0.0.0.0/udp/0/quic-v1"@]
}

fn default_listen() -> (r: Vec<String>)
    ensures
        texts(r@) == default_addresses(),
{
    let mut r: Vec<String> = Vec::new();
    r.push("/ip4/0.0.0.0/tcp/0".to_owned());
    r.push("/ip4/0.0.0.0/udp/0/quic-v1".to_owned());
    assert(texts(r@) == default_addresses());
    r
}

/// Addresses, each only where it comes first.
pub open spec fn each_once(list: Seq<Seq<char>>) -> Seq<Seq<char>>
    decreases list.len(),
{
    if list.len() == 0 {
        Seq::empty()
    } else {
        let rest = each_once(list.drop_last());
        if rest.contains(list.last()) {
            rest
        } else {
            rest.push(list.last())
        }
    }
}

/// The addresses on which a node listens. `env` holds those of the environment that are valid,
/// where it gives any at all; none of them being valid, the default ones take their place.
pub open spec fn listen_addresses(
    env: Option<Seq<Seq<char>>>,
    cli: Seq<Seq<char>>,
) -> Seq<Seq<char>> {
    match env {
        None => if cli.len() == 0 {
            default_addresses()
        } else {
            cli
        },
        Some(list) => {
            let given = if list.len() == 0 {
                default_addresses()
            } else {
                list
            };
            if cli.len() == 0 {
                given
            } else {
                each_once(cli + given)
            }
        },
    }
}

fn holds_text(list: &Vec<String>, s: &str) -> (r: bool)
    ensures
        r == texts(list@).contains(s@),
{
    let mut i: usize = 0;
    while i < list.len()
        invariant
            i <= list@.len(),
            forall|j: int| 0 <= j < i ==> #[trigger] texts(list@)[j] != s@,
        decreases list@.len() - i,
    {
        if same_text(list[i].as_str(), s) {
            assert(texts(list@)[i as int] == s@);
            return true;
        }
        assert(texts(list@)[i as int] != s@);
        i = i + 1;
    }
    false
}

/// Adds the addresses of a list that are not there yet.
fn add_new(r: &mut Vec<String>, list: Vec<String>, earlier: Ghost<Seq<Seq<char>>>)
    requires
        texts(old(r)@) == each_once(earlier@),
    ensures
        texts(final(r)@) == each_once(earlier@ + texts(list@)),
{
    let ghost all = texts(list@);
    let mut i: usize = 0;
    assert(earlier@ + all.take(0) == earlier@);
    while i < list.len()
        invariant
            all == texts(list@),
            i <= list@.len(),
            texts(r@) == each_once(earlier@ + all.take(i as int)),
        decreases list@.len() - i,
    {
        let ghost before = r@;
        proof {
            let more = earlier@ + all.take(i + 1);
            assert(more.drop_last() == earlier@ + all.take(i as int));
            assert(more.last() == all[i as int]);
        }
        if !holds_text(r, list[i].as_str()) {
            r.push(list[i].clone());
            assert(texts(r@) == texts(before).push(all[i as int]));
        }
        i = i + 1;
    }
    assert(all.take(all.len() as int) == all);
}

/// The addresses on which a node listens.
pub fn choose_addresses(env: Option<Vec<String>>, cli: Vec<String>) -> (r: Vec<String>)
    ensures
        texts(r@) == listen_addresses(
            match env {
                Some(list) => Some(texts(list@)),
                None => None,
            },
            texts(cli@),
        ),
{
    match env {
        None => if cli.len() == 0 {
            default_listen()
        } else {
            cli
        },
        Some(list) => {
            let given = if list.len() == 0 {
                default_listen()
            } else {
                list
            };
            if cli.len() == 0 {
                return given;
            }
            let ghost none = Seq::<Seq<char>>::empty();
            let ghost first = texts(cli@);
            let mut r: Vec<String> = Vec::new();
            assert(texts(r@) == each_once(none));
            add_new(&mut r, cli, Ghost(none));
            assert(none + first == first);
            add_new(&mut r, given, Ghost(first));
            r
        },
    }
}

} // verus!
