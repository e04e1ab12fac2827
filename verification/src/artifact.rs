//! The persisted failure artifact: its file names and the byte format of the
//! recorded argument vector.
//!
//! The argument file is a sequence of records, one per argument in order:
//! an 8-byte little-endian unsigned length, then that many raw bytes of the
//! argument's native encoding. The stdin file holds the raw payload verbatim;
//! it needs no codec. Writing the files is left to the surrounding binary.

use vstd::bytes::lemma_auto_spec_u64_to_from_le_bytes;
use vstd::bytes::spec_u64_from_le_bytes;
use vstd::bytes::spec_u64_to_le_bytes;
use vstd::bytes::u64_from_le_bytes;
use vstd::bytes::u64_to_le_bytes;
use vstd::prelude::*;
use vstd::slice::slice_subrange;
use vstd::slice::slice_to_vec;
use vstd::string::StringExecFns;

verus! {

/// The views of a vector of byte buffers.
pub open spec fn views(args: Seq<Vec<u8>>) -> Seq<Seq<u8>> {
    args.map_values(|v: Vec<u8>| v@)
}

/// One record: the length prefix, then the argument's bytes.
pub open spec fn spec_encode_arg(a: Seq<u8>) -> Seq<u8>
    recommends
        a.len() <= u64::MAX,
{
    spec_u64_to_le_bytes(a.len() as u64) + a
}

/// The whole argument file: every record in order.
pub open spec fn spec_encode_args(args: Seq<Seq<u8>>) -> Seq<u8>
    decreases args.len(),
{
    if args.len() == 0 {
        Seq::empty()
    } else {
        spec_encode_arg(args[0]) + spec_encode_args(args.skip(1))
    }
}

/// What decoding a byte sequence yields: repeatedly an 8-byte little-endian
/// length then that many bytes, until the input is exhausted; a truncated
/// record yields nothing.
pub open spec fn spec_decode_args(b: Seq<u8>) -> Option<Seq<Seq<u8>>>
    decreases b.len(),
{
    if b.len() == 0 {
        Some(Seq::empty())
    } else if b.len() < 8 {
        None
    } else {
        let n = spec_u64_from_le_bytes(b.take(8)) as int;
        if 8 + n > b.len() {
            None
        } else {
            match spec_decode_args(b.skip(8 + n)) {
                Some(rest) => Some(seq![b.subrange(8, 8 + n)] + rest),
                None => None,
            }
        }
    }
}

/// Appending one argument appends one record.
pub proof fn lemma_encode_args_push(args: Seq<Seq<u8>>, a: Seq<u8>)
    ensures
        spec_encode_args(args.push(a)) == spec_encode_args(args) + spec_encode_arg(a),
    decreases args.len(),
{
    if args.len() == 0 {
        let p = args.push(a);
        assert(p.skip(1) =~= Seq::<Seq<u8>>::empty());
        assert(p[0] == a);
        assert(spec_encode_args(p.skip(1)) == Seq::<u8>::empty());
        assert(spec_encode_args(p) == spec_encode_arg(a) + spec_encode_args(p.skip(1)));
        assert(spec_encode_arg(a) + Seq::<u8>::empty() =~= spec_encode_arg(a));
        assert(spec_encode_args(args) + spec_encode_arg(a) =~= spec_encode_arg(a));
    } else {
        assert(args.push(a).skip(1) =~= args.skip(1).push(a));
        lemma_encode_args_push(args.skip(1), a);
        assert(spec_encode_args(args.push(a)) == spec_encode_arg(args[0]) + (spec_encode_args(
            args.skip(1),
        ) + spec_encode_arg(a)));
        assert(spec_encode_arg(args[0]) + (spec_encode_args(args.skip(1)) + spec_encode_arg(a))
            =~= (spec_encode_arg(args[0]) + spec_encode_args(args.skip(1))) + spec_encode_arg(a));
    }
}

/// Decoding inverts encoding: the exact original argument sequence comes
/// back, empty arguments and non-text bytes included.
pub proof fn lemma_encode_decode_round_trip(args: Seq<Seq<u8>>)
    requires
        forall|i: int| 0 <= i < args.len() ==> (#[trigger] args[i]).len() <= u64::MAX,
    ensures
        spec_decode_args(spec_encode_args(args)) == Some(args),
    decreases args.len(),
{
    lemma_auto_spec_u64_to_from_le_bytes();
    if args.len() == 0 {
        assert(spec_encode_args(args) =~= Seq::<u8>::empty());
    } else {
        let head = args[0];
        let n = head.len() as int;
        let b = spec_encode_args(args);
        assert(b == spec_encode_arg(head) + spec_encode_args(args.skip(1)));
        assert(spec_u64_to_le_bytes(head.len() as u64).len() == 8);
        assert(b.len() >= 8 + n);
        assert(b.take(8) =~= spec_u64_to_le_bytes(head.len() as u64));
        assert(spec_u64_from_le_bytes(b.take(8)) == head.len() as u64);
        assert(spec_u64_from_le_bytes(b.take(8)) as int == n);
        assert(b.subrange(8, 8 + n) =~= head);
        assert(b.skip(8 + n) =~= spec_encode_args(args.skip(1)));
        assert(forall|i: int|
            0 <= i < args.skip(1).len() ==> (#[trigger] args.skip(1)[i]).len() <= u64::MAX);
        lemma_encode_decode_round_trip(args.skip(1));
        assert(seq![head] + args.skip(1) =~= args);
    }
}

/// Encodes the argument vector as the contents of the argument file.
pub fn encode_args(args: &Vec<Vec<u8>>) -> (r: Vec<u8>)
    ensures
        r@ == spec_encode_args(views(args@)),
{
    let mut out: Vec<u8> = Vec::new();
    let mut i: usize = 0;
    while i < args.len()
        invariant
            i <= args@.len(),
            out@ == spec_encode_args(views(args@).take(i as int)),
        decreases args@.len() - i,
    {
        let len64: u64 = args[i].len() as u64;
        let mut prefix = u64_to_le_bytes(len64);
        let mut data = slice_to_vec(args[i].as_slice());
        proof {
            assert(views(args@).take(i + 1) =~= views(args@).take(i as int).push(args@[i as int]@));
            lemma_encode_args_push(views(args@).take(i as int), args@[i as int]@);
            assert(out@ + (prefix@ + data@) =~= (out@ + prefix@) + data@);
            assert(prefix@ + data@ =~= spec_encode_arg(args@[i as int]@));
        }
        out.append(&mut prefix);
        out.append(&mut data);
        i = i + 1;
    }
    proof {
        assert(views(args@).take(args@.len() as int) =~= views(args@));
    }
    out
}

/// What a prefix of already-decoded arguments adds to a decoder's result.
pub open spec fn spec_prepend(pre: Seq<Seq<u8>>, r: Option<Seq<Seq<u8>>>) -> Option<Seq<Seq<u8>>> {
    match r {
        Some(v) => Some(pre + v),
        None => None,
    }
}

/// Decodes the contents of an argument file back into the argument vector;
/// a truncated length prefix or record yields nothing.
pub fn decode_args(bytes: &Vec<u8>) -> (r: Option<Vec<Vec<u8>>>)
    ensures
        r matches Some(v) ==> spec_decode_args(bytes@) == Some(views(v@)),
        r is None ==> spec_decode_args(bytes@) is None,
{
    let mut out: Vec<Vec<u8>> = Vec::new();
    let mut p: usize = 0;
    let len = bytes.len();
    proof {
        assert(bytes@.skip(0) =~= bytes@);
        assert(views(out@) =~= Seq::<Seq<u8>>::empty());
        if spec_decode_args(bytes@) is Some {
            let v = spec_decode_args(bytes@)->Some_0;
            assert(views(out@) + v =~= v);
        }
    }
    while p < len
        invariant
            p <= len,
            len == bytes@.len(),
            spec_decode_args(bytes@) == spec_prepend(
                views(out@),
                spec_decode_args(bytes@.skip(p as int)),
            ),
        decreases len - p,
    {
        let ghost tail = bytes@.skip(p as int);
        if len - p < 8 {
            return None;
        }
        let prefix = slice_subrange(bytes.as_slice(), p, p + 8);
        let n64 = u64_from_le_bytes(prefix);
        proof {
            assert(prefix@ =~= tail.take(8));
        }
        let rem = len - p - 8;
        if n64 > rem as u64 {
            proof {
                assert(8 + spec_u64_from_le_bytes(tail.take(8)) as int > tail.len());
            }
            return None;
        }
        let n = n64 as usize;
        let chunk = slice_to_vec(slice_subrange(bytes.as_slice(), p + 8, p + 8 + n));
        proof {
            assert(chunk@ =~= tail.subrange(8, 8 + n64 as int));
            assert(bytes@.skip(p + 8 + n) =~= tail.skip(8 + n64 as int));
            assert(views(out@.push(chunk)) =~= views(out@).push(chunk@));
            if spec_decode_args(tail.skip(8 + n64 as int)) is Some {
                let rest = spec_decode_args(tail.skip(8 + n64 as int))->Some_0;
                assert(spec_decode_args(tail) == Some(seq![chunk@] + rest));
                assert(views(out@) + (seq![chunk@] + rest) =~= views(out@).push(chunk@) + rest);
            }
        }
        out.push(chunk);
        p = p + 8 + n;
    }
    proof {
        assert(bytes@.skip(len as int) =~= Seq::<u8>::empty());
        assert(views(out@) + Seq::<Seq<u8>>::empty() =~= views(out@));
    }
    Some(out)
}

/// The name of the file that holds the failing trial's stdin bytes.
pub fn input_file_name(suffix: &str) -> (r: String)
    ensures
        r@ == "input-"@ + suffix@,
{
    let mut s = String::from_str("input-");
    s.append(suffix);
    s
}

/// The name of the file that holds the failing trial's argument records.
pub fn args_file_name(suffix: &str) -> (r: String)
    ensures
        r@ == "args-"@ + suffix@,
{
    let mut s = String::from_str("args-");
    s.append(suffix);
    s
}

} // verus!
