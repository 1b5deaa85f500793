//! Tile URL templates: the placeholders `{z}`, `{x}`, `{y}` (and the older
//! `%z`, `%x`, `%y`) are replaced by the zoom level and the tile indices.
use vstd::prelude::*;

verus! {

/// The decimal digit of `d`, for `d < 10`.
pub open spec fn digit_char(d: nat) -> char {
    if d == 0 { '0' }
    else if d == 1 { '1' }
    else if d == 2 { '2' }
    else if d == 3 { '3' }
    else if d == 4 { '4' }
    else if d == 5 { '5' }
    else if d == 6 { '6' }
    else if d == 7 { '7' }
    else if d == 8 { '8' }
    else { '9' }
}

/// The decimal notation of `n`, without sign or leading zeros.
pub open spec fn decimal(n: nat) -> Seq<char>
    decreases n,
{
    if n < 10 {
        seq![digit_char(n)]
    } else {
        decimal(n / 10).push(digit_char(n % 10))
    }
}

/// `{k}` stands at position `i` of `s`.
pub open spec fn braced_at(s: Seq<char>, i: int, k: char) -> bool {
    0 <= i && i + 3 <= s.len() && s[i] == '{' && s[i + 1] == k && s[i + 2] == '}'
}

/// `%k` stands at position `i` of `s`.
pub open spec fn percent_at(s: Seq<char>, i: int, k: char) -> bool {
    0 <= i && i + 2 <= s.len() && s[i] == '%' && s[i + 1] == k
}

/// Length of the placeholder for `k` at position `i` of `s`, or 0 where
/// there is none.
pub open spec fn slot_len(s: Seq<char>, i: int, k: char) -> int {
    if braced_at(s, i, k) {
        3
    } else if percent_at(s, i, k) {
        2
    } else {
        0
    }
}

/// `s` from position `i` on, each placeholder replaced, scanning from left to
/// right: `z`, `x` and `y` are the texts that stand for the zoom and the
/// two tile indices.
pub open spec fn expand_from(s: Seq<char>, i: int, z: Seq<char>, x: Seq<char>, y: Seq<char>) -> Seq<char>
    decreases s.len() - i,
{
    if i < 0 || i >= s.len() {
        Seq::empty()
    } else if slot_len(s, i, 'z') > 0 {
        z + expand_from(s, i + slot_len(s, i, 'z'), z, x, y)
    } else if slot_len(s, i, 'x') > 0 {
        x + expand_from(s, i + slot_len(s, i, 'x'), z, x, y)
    } else if slot_len(s, i, 'y') > 0 {
        y + expand_from(s, i + slot_len(s, i, 'y'), z, x, y)
    } else {
        seq![s[i]] + expand_from(s, i + 1, z, x, y)
    }
}

/// The URL of tile (`x`, `y`) at `zoom`, written from `template`.
pub open spec fn tile_url_spec(template: Seq<char>, zoom: nat, x: nat, y: nat) -> Seq<char> {
    expand_from(template, 0, decimal(zoom), decimal(x), decimal(y))
}

fn digit_str(d: u32) -> (r: &'static str)
    requires
        d < 10,
    ensures
        r@ == seq![digit_char(d as nat)],
{
    let r = if d == 0 { "0" }
        else if d == 1 { "1" }
        else if d == 2 { "2" }
        else if d == 3 { "3" }
        else if d == 4 { "4" }
        else if d == 5 { "5" }
        else if d == 6 { "6" }
        else if d == 7 { "7" }
        else if d == 8 { "8" }
        else { "9" };
    proof {
        reveal_strlit("0");
        reveal_strlit("1");
        reveal_strlit("2");
        reveal_strlit("3");
        reveal_strlit("4");
        reveal_strlit("5");
        reveal_strlit("6");
        reveal_strlit("7");
        reveal_strlit("8");
        reveal_strlit("9");
    }
    assert(r@ =~= seq![digit_char(d as nat)]);
    r
}

/// Appends the decimal notation of `n` to `out`.
pub fn push_decimal(out: &mut String, n: u32)
    ensures
        final(out)@ == old(out)@ + decimal(n as nat),
    decreases n,
{
    if n >= 10 {
        push_decimal(out, n / 10);
    }
    out.append(digit_str(n % 10));
    proof {
        if n >= 10 {
            assert(decimal(n as nat) == decimal((n / 10) as nat).push(digit_char((n % 10) as nat)));
        }
        assert(final(out)@ =~= old(out)@ + decimal(n as nat));
    }
}

fn slot_length(t: &str, n: usize, i: usize, k: char) -> (r: usize)
    requires
        n == t@.len(),
        i < n,
    ensures
        r as int == slot_len(t@, i as int, k),
{
    if t.get_char(i) == '{' && n - i > 2 && t.get_char(i + 1) == k && t.get_char(i + 2) == '}' {
        3
    } else if t.get_char(i) == '%' && n - i > 1 && t.get_char(i + 1) == k {
        2
    } else {
        0
    }
}

proof fn lemma_expand_step(s: Seq<char>, i: int, z: Seq<char>, x: Seq<char>, y: Seq<char>)
    requires
        0 <= i < s.len(),
    ensures
        slot_len(s, i, 'z') > 0 ==> expand_from(s, i, z, x, y)
            == z + expand_from(s, i + slot_len(s, i, 'z'), z, x, y),
        slot_len(s, i, 'z') == 0 && slot_len(s, i, 'x') > 0 ==> expand_from(s, i, z, x, y)
            == x + expand_from(s, i + slot_len(s, i, 'x'), z, x, y),
        slot_len(s, i, 'z') == 0 && slot_len(s, i, 'x') == 0 && slot_len(s, i, 'y') > 0
            ==> expand_from(s, i, z, x, y) == y + expand_from(s, i + slot_len(s, i, 'y'), z, x, y),
        slot_len(s, i, 'z') == 0 && slot_len(s, i, 'x') == 0 && slot_len(s, i, 'y') == 0
            ==> expand_from(s, i, z, x, y) == seq![s[i]] + expand_from(s, i + 1, z, x, y),
{
}

/// Writes the URL of a tile from `template`, replacing each placeholder by
/// the decimal zoom or tile index.
pub fn tile_url(template: &str, zoom: u32, x: u32, y: u32) -> (r: String)
    ensures
        r@ == tile_url_spec(template@, zoom as nat, x as nat, y as nat),
{
    let n = template.unicode_len();
    let mut out = String::new();
    let mut i: usize = 0;
    let mut start: usize = 0;
    let ghost s = template@;
    let ghost z = decimal(zoom as nat);
    let ghost xs = decimal(x as nat);
    let ghost ys = decimal(y as nat);
    while i < n
        invariant
            n == s.len(),
            s == template@,
            start <= i <= n,
            z == decimal(zoom as nat),
            xs == decimal(x as nat),
            ys == decimal(y as nat),
            out@ + s.subrange(start as int, i as int) + expand_from(s, i as int, z, xs, ys)
                == expand_from(s, 0, z, xs, ys),
        decreases n - i,
    {
        proof {
            lemma_expand_step(s, i as int, z, xs, ys);
        }
        let lz = slot_length(template, n, i, 'z');
        let lx = slot_length(template, n, i, 'x');
        let ly = slot_length(template, n, i, 'y');
        if lz > 0 || lx > 0 || ly > 0 {
            let ghost before = out@;
            let ghost lit_s = s.subrange(start as int, i as int);
            let lit = template.substring_char(start, i);
            out.append(lit);
            let ghost mid = out@;
            let ghost mut v = z;
            let len;
            if lz > 0 {
                push_decimal(&mut out, zoom);
                len = lz;
            } else if lx > 0 {
                push_decimal(&mut out, x);
                len = lx;
                proof {
                    v = xs;
                }
            } else {
                push_decimal(&mut out, y);
                len = ly;
                proof {
                    v = ys;
                }
            }
            let ghost old_i = i as int;
            i = i + len;
            start = i;
            proof {
                let rest = expand_from(s, i as int, z, xs, ys);
                assert(expand_from(s, old_i, z, xs, ys) == v + rest);
                assert(out@ == mid + v);
                assert(mid == before + lit_s);
                assert(s.subrange(start as int, i as int) =~= Seq::<char>::empty());
                assert(out@ + s.subrange(start as int, i as int) + rest
                    =~= before + lit_s + (v + rest));
            }
        } else {
            proof {
                let lit = s.subrange(start as int, i as int);
                let rest = expand_from(s, i + 1, z, xs, ys);
                assert(s.subrange(start as int, i + 1) =~= lit + seq![s[i as int]]);
                assert(out@ + s.subrange(start as int, i + 1) + rest
                    =~= out@ + lit + (seq![s[i as int]] + rest));
            }
            i = i + 1;
        }
    }
    let lit = template.substring_char(start, n);
    out.append(lit);
    proof {
        assert(out@ =~= expand_from(s, 0, z, xs, ys));
    }
    out
}

} // verus!
