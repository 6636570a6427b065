//! Cache-key derivation.
//!
//! A key is `{PREFIX}_{namespace}_{function}_{digest}`, where `digest` is the
//! decimal rendering of a 64-bit hash of a self-delimiting encoding of the
//! argument sequence.
use std::collections::hash_map::DefaultHasher;
use std::hash::Hasher;
use vstd::prelude::*;
use vstd::std_specs::hash::DefaultHasherAdditionalSpecFns;
use vstd::string::StringExecFns;

use crate::PREFIX;

verus! {

/// The low `n` bytes of `x`, least significant first.
pub open spec fn le_bytes(x: nat, n: nat) -> Seq<u8>
    decreases n,
{
    if n == 0 {
        Seq::empty()
    } else {
        seq![(x % 256) as u8] + le_bytes(x / 256, (n - 1) as nat)
    }
}

/// An argument's bytes followed by their count as eight little-endian bytes.
pub open spec fn encode_arg(a: Seq<u8>) -> Seq<u8> {
    a + le_bytes(a.len(), 8)
}

/// The encodings of all arguments, in call order.
pub open spec fn encode_args(args: Seq<Seq<u8>>) -> Seq<u8>
    decreases args.len(),
{
    if args.len() == 0 {
        Seq::empty()
    } else {
        encode_args(args.drop_last()) + encode_arg(args.last())
    }
}

/// The 64-bit digest of an argument sequence: the default hasher fed the
/// whole encoding in one write.
pub open spec fn arg_digest(args: Seq<Seq<u8>>) -> u64 {
    DefaultHasher::spec_finish(seq![encode_args(args)])
}

pub open spec fn digit_char(d: nat) -> char {
    if d == 0 { '0' }
    else if d == 1 { '1' }
    else if d == 2 { '2' }
    else if d == 3 { '3' }
    else if d == 4 { '4' }
    else if d == 5 { '5' }
    else if d == 6 { '6' }
    else if d == 7 { '7' }
    else if d == 8 { '8' }
    else { '9' }
}

/// Decimal rendering of `n`, without leading zeros.
pub open spec fn decimal(n: nat) -> Seq<char>
    decreases n,
{
    if n < 10 {
        seq![digit_char(n)]
    } else {
        decimal(n / 10) + seq![digit_char(n % 10)]
    }
}

/// The key text for a namespace, a function name and a digest.
pub open spec fn key_text(namespace: Seq<char>, function_name: Seq<char>, digest: u64) -> Seq<char> {
    PREFIX@ + seq!['_'] + namespace + seq!['_'] + function_name + seq!['_'] + decimal(digest as nat)
}

/// The key that `derive_key` returns.
pub open spec fn cache_key(namespace: Seq<char>, function_name: Seq<char>, args: Seq<Seq<u8>>) -> Seq<char> {
    key_text(namespace, function_name, arg_digest(args))
}

fn digit_str(d: u64) -> (r: &'static str)
    requires
        d < 10,
    ensures
        r@ == seq![digit_char(d as nat)],
{
    proof {
        reveal_strlit("0");
        reveal_strlit("1");
        reveal_strlit("2");
        reveal_strlit("3");
        reveal_strlit("4");
        reveal_strlit("5");
        reveal_strlit("6");
        reveal_strlit("7");
        reveal_strlit("8");
        reveal_strlit("9");
    }
    if d == 0 { "0" }
    else if d == 1 { "1" }
    else if d == 2 { "2" }
    else if d == 3 { "3" }
    else if d == 4 { "4" }
    else if d == 5 { "5" }
    else if d == 6 { "6" }
    else if d == 7 { "7" }
    else if d == 8 { "8" }
    else { "9" }
}

/// Appends the decimal rendering of `n` to `s`.
fn push_decimal(s: &mut String, n: u64)
    ensures
        final(s)@ == old(s)@ + decimal(n as nat),
    decreases n,
{
    if n >= 10 {
        push_decimal(s, n / 10);
    }
    s.append(digit_str(n % 10));
    assert(final(s)@ =~= old(s)@ + decimal(n as nat));
}

/// Appends the low `n` bytes of `x`, least significant first.
fn push_le_bytes(out: &mut Vec<u8>, x: u64, n: usize)
    requires
        n <= 8,
    ensures
        final(out)@ == old(out)@ + le_bytes(x as nat, n as nat),
{
    let mut i: usize = 0;
    let mut rest: u64 = x;
    while i < n
        invariant
            i <= n,
            out@ + le_bytes(rest as nat, (n - i) as nat) == old(out)@ + le_bytes(x as nat, n as nat),
        decreases n - i,
    {
        let b: u8 = (rest % 256) as u8;
        proof {
            let tail = le_bytes((rest / 256) as nat, (n - i - 1) as nat);
            assert(le_bytes(rest as nat, (n - i) as nat) == seq![b] + tail);
            assert(out@.push(b) + tail =~= out@ + (seq![b] + tail));
        }
        out.push(b);
        rest = rest / 256;
        i = i + 1;
    }
    assert(out@ =~= out@ + le_bytes(rest as nat, 0));
}

/// The encoding of the argument sequence `args`.
pub fn encode_arguments(args: &Vec<Vec<u8>>) -> (r: Vec<u8>)
    ensures
        r@ == encode_args(args@.map_values(|a: Vec<u8>| a@)),
{
    let ghost views = args@.map_values(|a: Vec<u8>| a@);
    let mut out: Vec<u8> = Vec::new();
    let mut i: usize = 0;
    while i < args.len()
        invariant
            i <= args@.len(),
            views == args@.map_values(|a: Vec<u8>| a@),
            out@ == encode_args(views.subrange(0, i as int)),
        decreases args@.len() - i,
    {
        let a: &Vec<u8> = &args[i];
        let mut j: usize = 0;
        let ghost start = out@;
        while j < a.len()
            invariant
                j <= a@.len(),
                out@ == start + a@.subrange(0, j as int),
            decreases a@.len() - j,
        {
            out.push(a[j]);
            j = j + 1;
            assert(out@ =~= start + a@.subrange(0, j as int));
        }
        push_le_bytes(&mut out, a.len() as u64, 8);
        proof {
            let s = views.subrange(0, i + 1);
            assert(s.drop_last() =~= views.subrange(0, i as int));
            assert(s.last() == a@);
            assert(a@.subrange(0, a@.len() as int) =~= a@);
        }
        i = i + 1;
    }
    assert(views.subrange(0, args@.len() as int) =~= views);
    out
}

/// The digest of the argument sequence `args`.
pub fn digest_arguments(args: &Vec<Vec<u8>>) -> (r: u64)
    ensures
        r == arg_digest(args@.map_values(|a: Vec<u8>| a@)),
{
    let bytes = encode_arguments(args);
    let mut h = DefaultHasher::new();
    h.write(bytes.as_slice());
    assert(h@ =~= seq![bytes@]);
    h.finish()
}

/// Derives the cache key of a call of `function_name` under `namespace`
/// with the argument sequence `args`, each argument given as its bytes.
pub fn derive_key(namespace: &str, function_name: &str, args: &Vec<Vec<u8>>) -> (r: String)
    ensures
        r@ == cache_key(namespace@, function_name@, args@.map_values(|a: Vec<u8>| a@)),
{
    let digest = digest_arguments(args);
    let mut key = String::from_str(PREFIX);
    key.append("_");
    key.append(namespace);
    key.append("_");
    key.append(function_name);
    key.append("_");
    push_decimal(&mut key, digest);
    proof {
        reveal_strlit("_");
    }
    key
}


pub open spec fn pow256(n: nat) -> nat
    decreases n,
{
    if n == 0 { 1 } else { 256 * pow256((n - 1) as nat) }
}

proof fn lemma_le_bytes_len(x: nat, n: nat)
    ensures
        le_bytes(x, n).len() == n,
    decreases n,
{
    if n > 0 {
        lemma_le_bytes_len(x / 256, (n - 1) as nat);
    }
}

proof fn lemma_le_bytes_injective(x: nat, y: nat, n: nat)
    requires
        x < pow256(n),
        y < pow256(n),
        le_bytes(x, n) == le_bytes(y, n),
    ensures
        x == y,
    decreases n,
{
    if n > 0 {
        let m = (n - 1) as nat;
        lemma_le_bytes_len(x / 256, m);
        lemma_le_bytes_len(y / 256, m);
        assert(le_bytes(x, n)[0] == (x % 256) as u8);
        assert(le_bytes(y, n)[0] == (y % 256) as u8);
        assert(le_bytes(x / 256, m) =~= le_bytes(x, n).subrange(1, n as int));
        assert(le_bytes(y / 256, m) =~= le_bytes(y, n).subrange(1, n as int));
        assert(x / 256 < pow256(m)) by (nonlinear_arith)
            requires x < 256 * pow256(m);
        assert(y / 256 < pow256(m)) by (nonlinear_arith)
            requires y < 256 * pow256(m);
        lemma_le_bytes_injective(x / 256, y / 256, m);
    }
}

proof fn lemma_pow256_8()
    ensures
        pow256(8) == 0x1_0000_0000_0000_0000,
{
    reveal_with_fuel(pow256, 9);
}

proof fn lemma_encode_args_len(args: Seq<Seq<u8>>)
    ensures
        args.len() > 0 ==> encode_args(args).len() >= 8,
    decreases args.len(),
{
    if args.len() > 0 {
        lemma_le_bytes_len(args.last().len(), 8);
    }
}

/// Each argument fits in memory: its length is below 2^64.
pub open spec fn args_fit(args: Seq<Seq<u8>>) -> bool {
    forall|i: int| 0 <= i < args.len() ==> (#[trigger] args[i]).len() < 0x1_0000_0000_0000_0000
}

/// The argument encoding is injective: it can be read back from the end.
pub proof fn lemma_encode_args_injective(a: Seq<Seq<u8>>, b: Seq<Seq<u8>>)
    requires
        args_fit(a),
        args_fit(b),
        encode_args(a) == encode_args(b),
    ensures
        a == b,
    decreases a.len() + b.len(),
{
    lemma_encode_args_len(a);
    lemma_encode_args_len(b);
    if a.len() > 0 && b.len() > 0 {
        let (la, lb) = (a.last(), b.last());
        let (pa, pb) = (encode_args(a.drop_last()), encode_args(b.drop_last()));
        let e = encode_args(a);
        lemma_le_bytes_len(la.len(), 8);
        lemma_le_bytes_len(lb.len(), 8);
        assert(e =~= pa + la + le_bytes(la.len(), 8));
        assert(e =~= pb + lb + le_bytes(lb.len(), 8));
        assert(le_bytes(la.len(), 8) =~= e.subrange(e.len() - 8, e.len() as int));
        assert(le_bytes(lb.len(), 8) =~= e.subrange(e.len() - 8, e.len() as int));
        lemma_pow256_8();
        assert(la == a[a.len() - 1]);
        assert(lb == b[b.len() - 1]);
        lemma_le_bytes_injective(la.len(), lb.len(), 8);
        let k = e.len() - 8 - la.len();
        assert(la =~= e.subrange(k, e.len() - 8));
        assert(lb =~= e.subrange(k, e.len() - 8));
        assert(pa =~= e.subrange(0, k));
        assert(pb =~= e.subrange(0, k));
        assert(args_fit(a.drop_last()));
        assert(args_fit(b.drop_last()));
        lemma_encode_args_injective(a.drop_last(), b.drop_last());
        assert(a =~= a.drop_last().push(la));
        assert(b =~= b.drop_last().push(lb));
    } else if a.len() > 0 || b.len() > 0 {
        assert(false);
    } else {
        assert(a =~= b);
    }
}

proof fn lemma_decimal_len(n: nat)
    ensures
        decimal(n).len() >= 1,
        decimal(n).len() == 1 <==> n < 10,
    decreases n,
{
    if n >= 10 {
        lemma_decimal_len(n / 10);
    }
}

proof fn lemma_digit_char_injective(a: nat, b: nat)
    requires
        a < 10,
        b < 10,
        digit_char(a) == digit_char(b),
    ensures
        a == b,
{
}

proof fn lemma_decimal_injective(x: nat, y: nat)
    requires
        decimal(x) == decimal(y),
    ensures
        x == y,
    decreases x,
{
    lemma_decimal_len(x);
    lemma_decimal_len(y);
    if x >= 10 && y >= 10 {
        let (dx, dy) = (decimal(x), decimal(y));
        assert(dx[dx.len() - 1] == digit_char(x % 10));
        assert(dy[dy.len() - 1] == digit_char(y % 10));
        assert(decimal(x / 10) =~= dx.subrange(0, dx.len() - 1));
        assert(decimal(y / 10) =~= dy.subrange(0, dy.len() - 1));
        lemma_decimal_injective(x / 10, y / 10);
        lemma_digit_char_injective(x % 10, y % 10);
    } else {
        assert(x < 10 && y < 10);
        assert(decimal(x) == seq![digit_char(x)]);
        assert(decimal(y) == seq![digit_char(y)]);
        assert(decimal(x)[0] == digit_char(x));
        assert(decimal(y)[0] == digit_char(y));
        lemma_digit_char_injective(x, y);
    }
}

proof fn lemma_key_text_injective(ns: Seq<char>, f: Seq<char>, d1: u64, d2: u64)
    requires
        key_text(ns, f, d1) == key_text(ns, f, d2),
    ensures
        d1 == d2,
{
    let head = PREFIX@ + seq!['_'] + ns + seq!['_'] + f + seq!['_'];
    let k = key_text(ns, f, d1);
    assert(k =~= head + decimal(d1 as nat));
    assert(key_text(ns, f, d2) =~= head + decimal(d2 as nat));
    assert(decimal(d1 as nat) =~= k.subrange(head.len() as int, k.len() as int));
    assert(decimal(d2 as nat) =~= k.subrange(head.len() as int, k.len() as int));
    lemma_decimal_injective(d1 as nat, d2 as nat);
}

/// For one namespace and function name, distinct argument sequences have
/// distinct encodings, and their keys coincide exactly when the 64-bit
/// digests of those encodings coincide: only a hash collision can make two
/// different calls share a key.
pub proof fn law_distinct_arguments_distinct_keys(
    namespace: Seq<char>,
    function_name: Seq<char>,
    a: Seq<Seq<u8>>,
    b: Seq<Seq<u8>>,
)
    requires
        args_fit(a),
        args_fit(b),
        a != b,
    ensures
        encode_args(a) != encode_args(b),
        cache_key(namespace, function_name, a) == cache_key(namespace, function_name, b)
            <==> arg_digest(a) == arg_digest(b),
{
    if encode_args(a) == encode_args(b) {
        lemma_encode_args_injective(a, b);
    }
    if cache_key(namespace, function_name, a) == cache_key(namespace, function_name, b) {
        lemma_key_text_injective(namespace, function_name, arg_digest(a), arg_digest(b));
    }
}

/// Swapping two distinct arguments changes the encoding, so the two orders
/// share a key only through a collision of their digests.
pub proof fn law_argument_order_matters(
    namespace: Seq<char>,
    function_name: Seq<char>,
    x: Seq<u8>,
    y: Seq<u8>,
)
    requires
        x.len() < 0x1_0000_0000_0000_0000,
        y.len() < 0x1_0000_0000_0000_0000,
        x != y,
    ensures
        encode_args(seq![x, y]) != encode_args(seq![y, x]),
        cache_key(namespace, function_name, seq![x, y]) == cache_key(namespace, function_name, seq![y, x])
            <==> arg_digest(seq![x, y]) == arg_digest(seq![y, x]),
{
    assert(seq![x, y][0] != seq![y, x][0]);
    law_distinct_arguments_distinct_keys(namespace, function_name, seq![x, y], seq![y, x]);
}

} // verus!
