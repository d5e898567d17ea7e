//! Lemonbar markup formatting: colored segments, clickable regions, and the
//! three-column line layout. The markup grammar is a byte-for-byte
//! compatibility contract with the bar-drawing process.

use vstd::prelude::*;
use crate::strutil::dec_str;

verus! {

/// The ambient text (foreground) color: a foreground paint always resets to it.
pub open spec fn text_color() -> Seq<char> {
    "#f8f6f2"@
}

/// The ambient background color: a background paint always resets to it.
pub open spec fn background_color() -> Seq<char> {
    "#121212"@
}

/// Exec twin of [`text_color`].
pub fn text_color_str() -> (r: &'static str)
    ensures
        r@ == text_color(),
{
    "#f8f6f2"
}

/// Exec twin of [`background_color`].
pub fn background_color_str() -> (r: &'static str)
    ensures
        r@ == background_color(),
{
    "#121212"
}

/// The markup produced by [`paint`]: a color directive for the given layer,
/// the text (wrapped in underline markers when the layer is `"U"`), and a
/// closing directive that resets the layer to its ambient default.
pub open spec fn paint_spec(s: Seq<char>, color: Seq<char>, layer: Seq<char>) -> Seq<char> {
    let deco = if layer == "U"@ {
        "%{+u}"@ + s + "%{-u}"@
    } else {
        s
    };
    let default_color = if layer == "F"@ {
        text_color()
    } else {
        background_color()
    };
    "%{"@ + layer + color + "}"@ + deco + "%{"@ + layer + default_color + "}"@
}

/// Color `string` on one layer: `"F"` paints the foreground, any other layer
/// paints the background, and `"U"` additionally underlines. The fragment
/// always closes with a reset to the ambient default for that layer.
pub fn paint(string: &str, color: &str, layer: &str) -> (r: String)
    ensures
        r@ == paint_spec(string@, color@, layer@),
{
    let mut r = String::from_str("%{");
    r.append(layer);
    r.append(color);
    r.append("}");
    if crate::strutil::str_eq(layer, "U") {
        r.append("%{+u}");
        r.append(string);
        r.append("%{-u}");
    } else {
        r.append(string);
    }
    r.append("%{");
    r.append(layer);
    if crate::strutil::str_eq(layer, "F") {
        r.append(text_color_str());
    } else {
        r.append(background_color_str());
    }
    r.append("}");
    proof {
        assert(r@ =~= paint_spec(string@, color@, layer@));
    }
    r
}

/// The markup produced by [`buttonize`]: a click-action region bound to
/// `cmd` around the text.
pub open spec fn buttonize_spec(s: Seq<char>, cmd: Seq<char>) -> Seq<char> {
    "%{A:"@ + cmd + ":}"@ + s + "%{A}"@
}

/// Wrap `string` in a click-action region that sends `command` when clicked.
/// Nested regions are not supported by the markup grammar; callers must not
/// nest calls.
pub fn buttonize(string: &str, command: &str) -> (r: String)
    ensures
        r@ == buttonize_spec(string@, command@),
{
    let mut r = String::from_str("%{A:");
    r.append(command);
    r.append(":}");
    r.append(string);
    r.append("%{A}");
    proof {
        assert(r@ =~= buttonize_spec(string@, command@));
    }
    r
}

/// Fragments joined with a separator between neighbours; no leading or
/// trailing separator.
pub open spec fn join_spec(frags: Seq<Seq<char>>, sep: Seq<char>) -> Seq<char>
    decreases frags.len(),
{
    if frags.len() == 0 {
        Seq::empty()
    } else if frags.len() == 1 {
        frags[0]
    } else {
        frags[0] + sep + join_spec(frags.drop_first(), sep)
    }
}

/// The views of a sequence of strings.
pub open spec fn views_of(v: Seq<String>) -> Seq<Seq<char>> {
    v.map_values(|s: String| s@)
}

/// Joining after appending one fragment extends the join with one separator
/// and the fragment (except on the first fragment).
pub proof fn lemma_join_push(frags: Seq<Seq<char>>, x: Seq<char>, sep: Seq<char>)
    ensures
        join_spec(frags.push(x), sep) == if frags.len() == 0 {
            x
        } else {
            join_spec(frags, sep) + sep + x
        },
    decreases frags.len(),
{
    if frags.len() == 0 {
        assert(frags.push(x).len() == 1);
        assert(join_spec(frags.push(x), sep) == frags.push(x)[0]);
    } else if frags.len() == 1 {
        assert(frags.push(x).drop_first() =~= seq![x]);
        assert(frags.push(x)[0] == frags[0]);
        assert(join_spec(seq![x], sep) == x);
        assert(join_spec(frags.push(x), sep) =~= frags[0] + sep + x);
    } else {
        assert(frags.push(x).drop_first() =~= frags.drop_first().push(x));
        lemma_join_push(frags.drop_first(), x, sep);
        assert(join_spec(frags.push(x), sep) == frags[0] + sep + join_spec(
            frags.drop_first().push(x),
            sep,
        ));
        assert((frags[0] + sep + (join_spec(frags.drop_first(), sep) + sep + x)) =~= (frags[0]
            + sep + join_spec(frags.drop_first(), sep) + sep + x));
    }
}

/// Join the strings of `v` with `sep` between neighbours.
pub fn join_strings(v: &Vec<String>, sep: &str) -> (r: String)
    ensures
        r@ == join_spec(views_of(v@), sep@),
{
    let mut r = String::new();
    let mut i: usize = 0;
    while i < v.len()
        invariant
            0 <= i <= v@.len(),
            r@ == join_spec(views_of(v@).take(i as int), sep@),
        decreases v@.len() - i,
    {
        if i > 0 {
            r.append(sep);
        }
        r.append(v[i].as_str());
        proof {
            assert(views_of(v@).take(i as int).push(v@[i as int]@) =~= views_of(v@).take(
                i as int + 1,
            ));
            lemma_join_push(views_of(v@).take(i as int), v@[i as int]@, sep@);
            assert(r@ =~= join_spec(views_of(v@).take(i as int + 1), sep@));
        }
        i = i + 1;
    }
    proof {
        assert(views_of(v@).take(v@.len() as int) =~= views_of(v@));
    }
    r
}

/// One rendered line: the three column markers, each column's fragments
/// space-joined, and the trailing separator.
pub open spec fn bar_line_spec(l: Seq<Seq<char>>, c: Seq<Seq<char>>, r: Seq<Seq<char>>) -> Seq<
    char,
> {
    "%{l}"@ + join_spec(l, " "@) + "%{c}"@ + join_spec(c, " "@) + "%{r}"@ + join_spec(r, " "@)
        + " "@
}

/// Compose one bar line from the already-rendered fragments of the left,
/// center and right columns.
pub fn get_formatted_string(left: &Vec<String>, center: &Vec<String>, right: &Vec<String>) -> (r:
    String)
    ensures
        r@ == bar_line_spec(views_of(left@), views_of(center@), views_of(right@)),
{
    let mut r = String::from_str("%{l}");
    r.append(join_strings(left, " ").as_str());
    r.append("%{c}");
    r.append(join_strings(center, " ").as_str());
    r.append("%{r}");
    r.append(join_strings(right, " ").as_str());
    r.append(" ");
    proof {
        assert(r@ =~= bar_line_spec(views_of(left@), views_of(center@), views_of(right@)));
    }
    r
}

/// The composed line is the plain concatenation of markers and fragments:
/// with one left fragment, no center fragment and two right fragments, the
/// line is the left marker, the left fragment, the center marker, the right
/// marker, the two right fragments separated by one space, and the trailing
/// space. An empty column contributes only its marker.
pub proof fn lemma_render_concatenation(a: Seq<char>, b: Seq<char>, c: Seq<char>)
    ensures
        bar_line_spec(seq![a], Seq::empty(), seq![b, c]) == "%{l}"@ + a + "%{c}"@ + "%{r}"@ + b
            + " "@ + c + " "@,
{
    assert(seq![b, c].drop_first() =~= seq![c]);
    assert(seq![b, c][0] == b);
    assert(join_spec(seq![c], " "@) == c);
    assert(join_spec(seq![b, c], " "@) =~= b + " "@ + c);
    assert(bar_line_spec(seq![a], Seq::empty(), seq![b, c]) =~= "%{l}"@ + a + "%{c}"@ + "%{r}"@
        + b + " "@ + c + " "@);
}

/// A foreground paint opens with the foreground directive for the requested
/// color, carries the text unchanged in the middle, and closes with the
/// reset directive for the ambient text color, for any text and color.
pub proof fn lemma_paint_foreground_shape(text: Seq<char>, color: Seq<char>)
    ensures
        paint_spec(text, color, "F"@).subrange(0, 4 + color.len() as int) == "%{F"@ + color
            + "}"@,
        paint_spec(text, color, "F"@).subrange(
            4 + color.len() as int,
            4 + color.len() as int + text.len() as int,
        ) == text,
        paint_spec(text, color, "F"@).subrange(
            4 + color.len() as int + text.len() as int,
            paint_spec(text, color, "F"@).len() as int,
        ) == "%{F"@ + text_color() + "}"@,
{
    broadcast use vstd::string::group_string_axioms;

    reveal_strlit("F");
    reveal_strlit("U");
    reveal_strlit("%{");
    reveal_strlit("}");
    reveal_strlit("%{F");
    assert("F"@.len() == 1 && "U"@.len() == 1);
    assert("F"@[0] == 'F' && "U"@[0] == 'U');
    assert("F"@ != "U"@);
    let p = paint_spec(text, color, "F"@);
    assert(p =~= "%{"@ + "F"@ + color + "}"@ + text + "%{"@ + "F"@ + text_color() + "}"@);
    assert(p.subrange(0, 4 + color.len() as int) =~= "%{F"@ + color + "}"@);
    assert(p.subrange(4 + color.len() as int, 4 + color.len() as int + text.len() as int)
        =~= text);
    assert(p.subrange(4 + color.len() as int + text.len() as int, p.len() as int) =~= "%{F"@
        + text_color() + "}"@);
}

/// Two-digit zero padding: values below ten get one leading zero.
pub open spec fn pad2(n: nat) -> Seq<char> {
    if n < 10 {
        seq!['0'] + dec_str(n)
    } else {
        dec_str(n)
    }
}

/// Format a value with at least two digits, zero-padding a single digit.
pub fn time_string(time: u64) -> (r: String)
    ensures
        r@ == pad2(time as nat),
{
    if time < 10 {
        let mut r = String::from_str("0");
        r.append(crate::strutil::u64_to_string(time).as_str());
        proof {
            reveal_strlit("0");
            assert(r@ =~= pad2(time as nat));
        }
        r
    } else {
        crate::strutil::u64_to_string(time)
    }
}

/// Grey: the background of the focused workspace and the idle player color.
pub open spec fn grey_color() -> Seq<char> {
    "#45413b"@
}

/// Exec twin of [`grey_color`].
pub fn grey_color_str() -> (r: &'static str)
    ensures
        r@ == grey_color(),
{
    "#45413b"
}

/// Light grey: synthesized workspace numbers and the clock colon.
pub open spec fn lightgrey_color() -> Seq<char> {
    "#857f78"@
}

/// Exec twin of [`lightgrey_color`].
pub fn lightgrey_color_str() -> (r: &'static str)
    ensures
        r@ == lightgrey_color(),
{
    "#857f78"
}

/// Red: errors, empty battery, link down, high load.
pub open spec fn red_color() -> Seq<char> {
    "#ff2c4b"@
}

/// Exec twin of [`red_color`].
pub fn red_color_str() -> (r: &'static str)
    ensures
        r@ == red_color(),
{
    "#ff2c4b"
}

/// Green: full battery, link up, low load.
pub open spec fn green_color() -> Seq<char> {
    "#aeee00"@
}

/// Exec twin of [`green_color`].
pub fn green_color_str() -> (r: &'static str)
    ensures
        r@ == green_color(),
{
    "#aeee00"
}

/// Light brown: middling battery and load.
pub open spec fn lightbrown_color() -> Seq<char> {
    "#f4cf86"@
}

/// Exec twin of [`lightbrown_color`].
pub fn lightbrown_color_str() -> (r: &'static str)
    ensures
        r@ == lightbrown_color(),
{
    "#f4cf86"
}

/// Orange: low battery, raised load, playing music.
pub open spec fn orange_color() -> Seq<char> {
    "#ffa724"@
}

/// Exec twin of [`orange_color`].
pub fn orange_color_str() -> (r: &'static str)
    ensures
        r@ == orange_color(),
{
    "#ffa724"
}

} // verus!
