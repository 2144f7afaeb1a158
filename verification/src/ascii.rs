//! The banner that opens a session: one of six drawings, picked at random,
//! above a centred title.

use vstd::prelude::*;
use vstd::string::*;
use vstd::utf8::encode_utf8;

verus! {

pub const SUNSET_TREE: &'static str = "
                                                                    ..%%%%% 
                                                          ...    .%%%%%%\"\" 
                                                       .%%%%%%%/%%%%%\" 
                                     .....           .%%%%%%%%%%%%%%\\ 
                                ..:::::::::::..      :;\"\"  {_}\\%%/%%%%%%.. 
                              .:::::::::::::::::.            {_}/{_}%%%%%%% 
                             :::::::::::::::::::::            \\\\//    \"\"\"\\:: 
                            :::::::::::::::::::::::           \\\\// 
---____-----__---------_____----....-----..--.....~-----_____-\\\\//---_____-
-----___---___----____--__--_.----...----...----..---__--_-___\\\\//--___--__
--____----__-___-----____----_...-----..--..---..___-------__\\\\//_-----____
___----____------____---__--___..--..-..----....___-----___--\\\\//_---__----
---___--___--__---__----___---___..----------._---____-----__\\\\//___---__--
--___---_-___-------______------___--___----___--__------___-\\\\//__--__----
____------____----_________------__                         \\\\//
--_____--__--____                              '            \\\\//  _
__---                 @            ,                  \"          {_}
             .                            '                            
             ";

pub const MOUNTAIN_CAMP: &'static str = "
                                                 *******
                                 ~             *---*******
                                ~             *-----*******
                         ~                   *-------*******
                        __      _   _!__     *-------*******
                   _   /  \\_  _/ \\  |::| ___ **-----********   ~
                 _/ \\_/^    \\/   ^\\/|::|\\|:|  **---*****/^\\_
              /\\/  ^ /  ^    / ^ ___|::|_|:|_/\\_******/  ^  \\
             /  \\  _/ ^ ^   /    |::|--|:|---|  \\__/  ^     ^\\___
           _/_^  \\/  ^    _/ ^   |::|::|:|-::| ^ /_  ^    ^  ^   \\_
          /   \\^ /    /\\ /       |::|--|:|:--|  /  \\        ^      \\
         /     \\/    /  /        |::|::|:|:-:| / ^  \\  ^      ^     \\
   _Q   / _Q  _Q_Q  / _Q    _Q   |::|::|:|:::|/    ^ \\   _Q      ^
  /_\\)   /_\\)/_/\\\\)  /_\\)  /_\\)  |::|::|:|:::|          /_\\)
_O|/O___O|/O_OO|/O__O|/O__O|/O__________________________O|/O__________
//////////////////////////////////////////////////////////////////////
";

pub const SEA_SUNRISE: &'static str = "
            ^^                   @@@@@@@@@
       ^^       ^^            @@@@@@@@@@@@@@@
                            @@@@@@@@@@@@@@@@@@              ^^
                           @@@@@@@@@@@@@@@@@@@@
 ~~~~ ~~ ~~~~~ ~~~~~~~~ ~~ &&&&&&&&&&&&&&&&&&&& ~~~~~~~ ~~~~~~~~~~~ ~~~
 ~         ~~   ~  ~       ~~~~~~~~~~~~~~~~~~~~ ~       ~~     ~~ ~
   ~      ~~      ~~ ~~ ~~  ~~~~~~~~~~~~~ ~~~~  ~     ~~~    ~ ~~~  ~ ~~
   ~  ~~     ~         ~      ~~~~~~  ~~ ~~~       ~~ ~ ~~  ~~ ~
 ~  ~       ~ ~      ~           ~~ ~~~~~~  ~      ~~  ~             ~~
       ~             ~        ~      ~      ~~   ~             ~
       ";

pub const LIGHTHOUSE: &'static str = "
                                                 __
                      ,-_                  (`  ).
                      |-_'-,              (     ).
                      |-_'-'           _(        '`.
             _        |-_'/        .=(`(      .     )
            /;-,_     |-_'        (     (.__.:-`-_.'
           /-.-;,-,___|'          `(       ) )
          /;-;-;-;_;_/|\\_ _ _ _ _   ` __.:'   )
             x_( __`|_P_|`-;-;-;,|        `--'
             |\\ \\    _||   `-;-;-'
             | \\`   -_|.      '-'
             | /   /-_| `\\
             |/   ,'-_|  \\
             /____|'-_|___\\
      _..,____]__|_\\-_'|_[___,.._
     '                          ``'--,..,.      
     ";

pub const CABIN: &'static str = "
                           (   )
                          (    )
                           (    )
                          (    )
                            )  )
                           (  (                  /\\
                            (_)                 /  \\  /\\
                    ________[_]________      /\\/    \\/  \\
           /\\      /\\        ______    \\    /   /\\/\\  /\\/\\
          /  \\    //_\\       \\    /\\    \\  /\\/\\/    \\/    \\
   /\\    / /\\/\\  //___\\       \\__/  \\    \\/
  /  \\  /\\/    \\//_____\\       \\ |[]|     \\
 /\\/\\/\\/       //_______\\       \\|__|      \\
/      \\      /XXXXXXXXXX\\                  \\
        \\    /_I_II  I__I_\\__________________\\
               I_I|  I__I_____[]_|_[]_____I
               I_II  I__I_____[]_|_[]_____I
               I II__I  I     XXXXXXX     I
            ~~~~~\"   \"~~~~~~~~~~~~~~~~~~~~~~~~
    ";

pub const NIGHT_SKY: &'static str = "
  ` : | | | |:  ||  :     `  :  |  |+|: | : : :|   .        `              .
      ` : | :|  ||  |:  :    `  |  | :| : | : |:   |  .                    :
         .' ':  ||  |:  |  '       ` || | : | |: : |   .  `           .   :.
                `'  ||  |  ' |   *    ` : | | :| |*|  :   :               :|
        *    *       `  |  : :  |  .      ` ' :| | :| . : :         *   :.||
             .`            | |  |  : .:|       ` | || | : |: |          | ||
      '          .         + `  |  :  .: .         '| | : :| :    .   |:| ||
         .                 .    ` *|  || :       `    | | :| | :      |:| |
 .                .          .        || |.: *          | || : :     :|||
        .            .   . *    .   .  ` |||.  +        + '| |||  .  ||`
     .             *              .     +:`|!             . ||||  :.||`
 +                      .                ..!|*          . | :`||+ |||`
     .                         +      : |||`        .| :| | | |.| ||`     .
       *     +   '               +  :|| |`     :.+. || || | |:`|| `
                            .      .||` .    ..|| | |: '` `| | |`  +
  .       +++                      ||        !|!: `       :| |
              +         .      .    | .      `|||.:      .||    .      .    `
          '                           `|.   .  `:|||   + ||'     `
  __    +      *                         `'       `'|.    `:
\"'  `---\"\"\"----....____,..^---`^``----.,.___          `.    `.  .    ____,.,-
    ___,--'\"\"`---\"'   ^  ^ ^        ^       \"\"\"'---,..___ __,..---\"\"'
--\"'                           ^                         ``--..,__";

/// The number of drawings.
pub const DRAWINGS: usize = 6;

/// The drawing with the number `i`.
pub open spec fn drawing(i: int) -> Seq<char> {
    if i == 0 {
        SUNSET_TREE@
    } else if i == 1 {
        MOUNTAIN_CAMP@
    } else if i == 2 {
        SEA_SUNRISE@
    } else if i == 3 {
        LIGHTHOUSE@
    } else if i == 4 {
        CABIN@
    } else {
        NIGHT_SKY@
    }
}

/// The index of the first line feed at or after `from`, or the length of
/// `bytes` if there is none.
pub open spec fn line_end(bytes: Seq<u8>, from: int) -> int
    decreases bytes.len() - from,
{
    if from < 0 || from >= bytes.len() {
        bytes.len() as int
    } else if bytes[from] == 0x0a {
        from
    } else {
        line_end(bytes, from + 1)
    }
}

/// The width in bytes of the line that starts at `start` and ends before
/// `end`.  A carriage return before the line feed belongs to the line ending.
pub open spec fn line_width(bytes: Seq<u8>, start: int, end: int) -> int {
    if end < bytes.len() && start < end && bytes[end - 1] == 0x0d {
        end - start - 1
    } else {
        end - start
    }
}

/// The width in bytes of the widest line from `start` on; 0 where no line
/// is left.
pub open spec fn max_line_width(bytes: Seq<u8>, start: int) -> int
    decreases bytes.len() - start,
{
    if start < 0 || start >= bytes.len() {
        0
    } else {
        let end = line_end(bytes, start);
        if end < start {
            0
        } else {
            let here = line_width(bytes, start, end);
            let rest = if end < bytes.len() {
                max_line_width(bytes, end + 1)
            } else {
                0
            };
            if here >= rest {
                here
            } else {
                rest
            }
        }
    }
}

/// `n` spaces.
pub open spec fn spaces(n: int) -> Seq<char> {
    Seq::new(n as nat, |i: int| ' ')
}

/// The title line of a banner.
pub open spec fn title(text: Seq<char>) -> Seq<char> {
    "========== "@ + text + " =========="@
}

/// What is missing for `line` to fill `width` characters.
pub open spec fn padding(line: Seq<char>, width: int) -> int {
    if width > line.len() {
        width - line.len()
    } else {
        0
    }
}

/// `line` centred in `width` characters: half of the padding, rounded down,
/// stands before it and the rest behind.
pub open spec fn centred(line: Seq<char>, width: int) -> Seq<char> {
    spaces(padding(line, width) / 2) + line + spaces(
        padding(line, width) - padding(line, width) / 2,
    )
}

/// A drawing with its title: the drawing, a line feed, the title centred
/// under the widest line of the drawing, and one space.
pub open spec fn banner(art: Seq<char>, text: Seq<char>) -> Seq<char> {
    art + "\n"@ + centred(title(text), max_line_width(encode_utf8(art), 0)) + " "@
}

/// Calls `rand::Rng::gen_range` on the generator that `rand::thread_rng`
/// hands out, for the range from 0 up to `n`.  The call panics on an empty
/// range, which the precondition rules out; of the number that it returns
/// nothing is known but that it lies in the range.
#[verifier::external_body]
fn random_below(n: usize) -> (i: usize)
    requires
        n > 0,
    ensures
        i < n,
{
    rand::Rng::gen_range(&mut rand::thread_rng(), 0..n)
}

/// The drawing with the number `i` as a string.
pub fn drawing_str(i: usize) -> (art: &'static str)
    requires
        i < DRAWINGS,
    ensures
        art@ == drawing(i as int),
{
    if i == 0 {
        SUNSET_TREE
    } else if i == 1 {
        MOUNTAIN_CAMP
    } else if i == 2 {
        SEA_SUNRISE
    } else if i == 3 {
        LIGHTHOUSE
    } else if i == 4 {
        CABIN
    } else {
        NIGHT_SKY
    }
}

/// The width in bytes of the widest line of `bytes`.
pub fn widest_line(bytes: &[u8]) -> (width: usize)
    ensures
        width == max_line_width(bytes@, 0),
{
    let mut best: usize = 0;
    let mut start: usize = 0;
    while start < bytes.len()
        invariant
            start <= bytes.len(),
            best <= bytes.len(),
            max_line_width(bytes@, 0) == if best >= max_line_width(bytes@, start as int) {
                best as int
            } else {
                max_line_width(bytes@, start as int)
            },
        decreases bytes.len() - start,
    {
        let mut end: usize = start;
        while end < bytes.len() && bytes[end] != 0x0a
            invariant
                start <= end <= bytes.len(),
                line_end(bytes@, start as int) == line_end(bytes@, end as int),
            decreases bytes.len() - end,
        {
            end = end + 1;
        }
        let here: usize = if end < bytes.len() && start < end && bytes[end - 1] == 0x0d {
            end - start - 1
        } else {
            end - start
        };
        if here > best {
            best = here;
        }
        if end < bytes.len() {
            start = end + 1;
        } else {
            start = end;
        }
    }
    best
}

/// Appends `n` spaces to `out`.
pub fn push_spaces(out: &mut String, n: usize)
    ensures
        final(out)@ == old(out)@ + spaces(n as int),
{
    proof {
        reveal_strlit(" ");
    }
    let mut i: usize = 0;
    while i < n
        invariant
            i <= n,
            out@ == old(out)@ + spaces(i as int),
            " "@ == seq![' '],
        decreases n - i,
    {
        out.append(" ");
        assert(out@ =~= old(out)@ + spaces(i as int + 1));
        i = i + 1;
    }
}

/// The banner of the drawing `art` with the title `text`.
pub fn frame_art(art: &str, text: &str) -> (framed: String)
    ensures
        framed@ == banner(art@, text@),
{
    let width = widest_line(art.as_bytes());
    let mut line = String::from_str("========== ");
    line.append(text);
    line.append(" ==========");
    let length = line.as_str().unicode_len();
    let pad: usize = if width > length {
        width - length
    } else {
        0
    };
    let mut framed = String::from_str(art);
    framed.append("\n");
    push_spaces(&mut framed, pad / 2);
    framed.append(line.as_str());
    push_spaces(&mut framed, pad - pad / 2);
    framed.append(" ");
    assert(framed@ =~= banner(art@, text@));
    framed
}

/// One of the drawings, picked at random.
pub fn get_random_art() -> (art: String)
    ensures
        exists|i: int| 0 <= i < DRAWINGS && art@ == drawing(i),
{
    let i = random_below(DRAWINGS);
    let art = String::from_str(drawing_str(i));
    assert(art@ == drawing(i as int));
    art
}

/// A banner with the title `text` under a drawing picked at random.
pub fn get_art(text: &str) -> (framed: String)
    ensures
        exists|i: int| 0 <= i < DRAWINGS && framed@ == banner(drawing(i), text@),
{
    let art = get_random_art();
    frame_art(art.as_str(), text)
}

} // verus!
