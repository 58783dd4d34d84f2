//! Downloads of the same file, with the same demands on it, at the same time:
//! one of them is done, and the others take its result.
use vstd::prelude::*;

use crate::decimal::{law_numerals_differ, lemma_numeral_is_digits, numeral, print_u64};
use crate::paths::opt_view;
use crate::text::{concat2, concat3, to_upper, uppercase};

verus! {

/// What is demanded of a downloaded file.
#[derive(Clone, Debug, PartialEq, Eq)]
pub struct Integrity {
    pub size: Option<u64>,
    pub sha1: Option<String>,
    pub sha512: Option<String>,
    pub sha256: Option<String>,
    pub md5: Option<String>,
    pub content: Option<String>,
}

impl Integrity {
    /// Whether nothing is demanded.
    pub open spec fn demands_nothing(self) -> bool {
        &&& self.size is None
        &&& self.sha1 is None
        &&& self.sha512 is None
        &&& self.sha256 is None
        &&& self.md5 is None
        &&& self.content is None
    }

    /// Whether nothing is demanded.
    pub fn is_empty(&self) -> (r: bool)
        ensures
            r == self.demands_nothing(),
    {
        self.size.is_none() && self.sha1.is_none() && self.sha512.is_none() && self.sha256.is_none()
            && self.md5.is_none() && self.content.is_none()
    }

    /// The demand that the file has this SHA-1 hash.
    pub fn sha1(hash: &str) -> (r: Integrity)
        ensures
            r.size is None,
            r.sha1 is Some && r.sha1->0@ == hash@,
            r.sha512 is None,
            r.sha256 is None,
            r.md5 is None,
            r.content is None,
    {
        Integrity {
            size: None,
            sha1: Some(hash.to_owned()),
            sha512: None,
            sha256: None,
            md5: None,
            content: None,
        }
    }

    /// The demand that the file has this size, besides the others.
    pub fn with_size(self, size: u64) -> (r: Integrity)
        ensures
            r == (Integrity { size: Some(size), ..self }),
    {
        let mut r = self;
        r.size = Some(size);
        r
    }
}

/// Whether a text holds ASCII letters and digits only, as a hash does.
pub open spec fn is_plain(text: Seq<char>) -> bool {
    forall|i: int|
        0 <= i < text.len() ==> '0' <= #[trigger] text[i] <= '9' || 'A' <= text[i] <= 'Z' || 'a'
            <= text[i] <= 'z'
}

/// A text in quotation marks, with what cannot be shown escaped.
pub uninterp spec fn quoted(text: Seq<char>) -> Seq<char>;

/// A text in quotation marks. Nothing is escaped in one of letters and digits.
pub open spec fn in_quotes(text: Seq<char>) -> Seq<char> {
    if is_plain(text) {
        "\""@ + text + "\""@
    } else {
        quoted(text)
    }
}

/// `std::fmt::Debug` of `str`: the text in quotation marks, with what cannot be
/// shown escaped; ASCII letters and digits stand as they are. That no two other
/// texts are shown alike is not claimed.
#[verifier::external_body]
fn quote(text: &str) -> (r: String)
    ensures
        is_plain(text@) ==> r@ == "\""@ + text@ + "\""@,
        !is_plain(text@) ==> r@ == quoted(text@),
{
    format!("{:?}", text)
}

/// How a demand on a text is written.
pub open spec fn shown_text(text: Option<String>) -> Seq<char> {
    match text {
        Some(text) => "Some("@ + in_quotes(text@) + ")"@,
        None => "None"@,
    }
}

/// How a demand on a number is written.
pub open spec fn shown_number(number: Option<u64>) -> Seq<char> {
    match number {
        Some(number) => "Some("@ + numeral(number as nat) + ")"@,
        None => "None"@,
    }
}

fn show_text(text: &Option<String>) -> (r: String)
    ensures
        r@ == shown_text(*text),
{
    match text {
        Some(text) => {
            let inner = quote(text.as_str());
            concat3("Some(", inner.as_str(), ")")
        },
        None => "None".to_owned(),
    }
}

fn show_number(number: &Option<u64>) -> (r: String)
    ensures
        r@ == shown_number(*number),
{
    match number {
        Some(number) => {
            let inner = print_u64(*number);
            concat3("Some(", inner.as_str(), ")")
        },
        None => "None".to_owned(),
    }
}

/// Where a file is put, as it is told apart from other places. On Windows the case
/// does not count.
pub open spec fn place(destination: Seq<char>, windows: bool) -> Seq<char> {
    if windows {
        uppercase(destination)
    } else {
        destination
    }
}

/// One demand, written out under its name, and what follows it.
pub open spec fn demand(name: Seq<char>, shown: Seq<char>, rest: Seq<char>) -> Seq<char> {
    name + shown + rest
}

/// The demands behind the one on the SHA-256 hash, written out.
pub open spec fn demands_on_rest(integrity: Integrity) -> Seq<char> {
    demand(
        "\0md5="@,
        shown_text(integrity.md5),
        demand("\0content="@, shown_text(integrity.content), seq![]),
    )
}

/// The demands behind the one on the size, written out.
pub open spec fn demands_on_content(integrity: Integrity) -> Seq<char> {
    demand(
        "\0sha1="@,
        shown_text(integrity.sha1),
        demand(
            "\0sha512="@,
            shown_text(integrity.sha512),
            demand("\0sha256="@, shown_text(integrity.sha256), demands_on_rest(integrity)),
        ),
    )
}

/// What is demanded of a file, written out.
pub open spec fn demands(integrity: Integrity) -> Seq<char> {
    demand("\0size="@, shown_number(integrity.size), demands_on_content(integrity))
}

fn write_demands(integrity: &Integrity) -> (r: String)
    ensures
        r@ == demands(*integrity),
{
    let size = show_number(&integrity.size);
    let sha1 = show_text(&integrity.sha1);
    let sha512 = show_text(&integrity.sha512);
    let sha256 = show_text(&integrity.sha256);
    let md5 = show_text(&integrity.md5);
    let content = show_text(&integrity.content);
    let text = concat2("\0content=", content.as_str());
    assert(text@ =~= demand("\0content="@, content@, seq![]));
    let text = concat3("\0md5=", md5.as_str(), text.as_str());
    let text = concat3("\0sha256=", sha256.as_str(), text.as_str());
    let text = concat3("\0sha512=", sha512.as_str(), text.as_str());
    let text = concat3("\0sha1=", sha1.as_str(), text.as_str());
    concat3("\0size=", size.as_str(), text.as_str())
}

/// What tells a download apart from others: where the file is put, and what is
/// demanded of it.
pub open spec fn flight_key(destination: Seq<char>, integrity: Integrity, windows: bool) -> Seq<
    char,
> {
    place(destination, windows) + demands(integrity)
}

/// What tells a download to `place` apart from others.
pub fn key_at(place: &str, integrity: &Integrity) -> (r: String)
    ensures
        r@ == place@ + demands(*integrity),
{
    let demands = write_demands(integrity);
    concat2(place, demands.as_str())
}

/// What tells a download apart from others.
pub fn key(destination: &str, integrity: &Integrity, windows: bool) -> (r: String)
    ensures
        r@ == flight_key(destination@, *integrity, windows),
{
    if windows {
        let place = to_upper(destination);
        key_at(place.as_str(), integrity)
    } else {
        key_at(destination, integrity)
    }
}

proof fn lemma_cancel_front(a: Seq<char>, x: Seq<char>, y: Seq<char>)
    requires
        a + x == a + y,
    ensures
        x == y,
{
    assert((a + x).len() == a.len() + x.len());
    assert((a + y).len() == a.len() + y.len());
    assert(x =~= (a + x).skip(a.len() as int));
    assert(y =~= (a + y).skip(a.len() as int));
}

proof fn lemma_cancel_back(x: Seq<char>, y: Seq<char>, b: Seq<char>)
    requires
        x + b == y + b,
    ensures
        x == y,
{
    assert((x + b).len() == x.len() + b.len());
    assert((y + b).len() == y.len() + b.len());
    assert(x =~= (x + b).take(x.len() as int));
    assert(y =~= (y + b).take(y.len() as int));
}

proof fn lemma_same_rest(name: Seq<char>, shown: Seq<char>, a: Seq<char>, b: Seq<char>)
    requires
        demand(name, shown, a) == demand(name, shown, b),
    ensures
        a == b,
{
    lemma_cancel_front(name + shown, a, b);
}

proof fn lemma_same_shown(name: Seq<char>, a: Seq<char>, b: Seq<char>, rest: Seq<char>)
    requires
        demand(name, a, rest) == demand(name, b, rest),
    ensures
        a == b,
{
    lemma_cancel_back(name + a, name + b, rest);
    lemma_cancel_front(name, a, b);
}

proof fn lemma_numbers_are_shown_apart(a: Option<u64>, b: Option<u64>)
    requires
        shown_number(a) == shown_number(b),
    ensures
        a == b,
{
    reveal_strlit("Some(");
    reveal_strlit("None");
    reveal_strlit(")");
    assert("Some("@[0] == 'S');
    assert("None"@[0] == 'N');
    match (a, b) {
        (Some(x), Some(y)) => {
            lemma_cancel_back("Some("@ + numeral(x as nat), "Some("@ + numeral(y as nat), ")"@);
            lemma_cancel_front("Some("@, numeral(x as nat), numeral(y as nat));
            law_numerals_differ(x as nat, y as nat);
        },
        (Some(x), None) => {
            assert(shown_number(a)[0] == 'S');
            assert(shown_number(b)[0] == 'N');
        },
        (None, Some(y)) => {
            assert(shown_number(b)[0] == 'S');
            assert(shown_number(a)[0] == 'N');
        },
        (None, None) => {},
    }
}

/// Downloads to the same place that differ in the size they demand are told
/// apart.
pub proof fn law_different_sizes_use_different_keys(
    destination: Seq<char>,
    integrity: Integrity,
    size: Option<u64>,
    windows: bool,
)
    requires
        integrity.size != size,
    ensures
        flight_key(destination, integrity, windows) != flight_key(
            destination,
            Integrity { size, ..integrity },
            windows,
        ),
{
    let other = Integrity { size, ..integrity };
    if flight_key(destination, integrity, windows) == flight_key(destination, other, windows) {
        lemma_cancel_front(place(destination, windows), demands(integrity), demands(other));
        lemma_same_shown(
            "\0size="@,
            shown_number(integrity.size),
            shown_number(size),
            demands_on_content(integrity),
        );
        lemma_numbers_are_shown_apart(integrity.size, size);
    }
}

/// The text that a demand is for: a hash by one of four methods, or the content.
pub open spec fn text_demand(integrity: Integrity, i: int) -> Option<String> {
    if i == 0 {
        integrity.sha1
    } else if i == 1 {
        integrity.sha512
    } else if i == 2 {
        integrity.sha256
    } else if i == 3 {
        integrity.md5
    } else {
        integrity.content
    }
}

/// The demands once one of those for a text is another.
pub open spec fn with_text_demand(integrity: Integrity, i: int, text: Option<String>) -> Integrity {
    if i == 0 {
        Integrity { sha1: text, ..integrity }
    } else if i == 1 {
        Integrity { sha512: text, ..integrity }
    } else if i == 2 {
        Integrity { sha256: text, ..integrity }
    } else if i == 3 {
        Integrity { md5: text, ..integrity }
    } else {
        Integrity { content: text, ..integrity }
    }
}

/// Downloads to the same place that differ in one hash they demand, or in the
/// content, are told apart, as far as the two texts are shown apart.
pub proof fn law_different_hashes_use_different_keys(
    destination: Seq<char>,
    integrity: Integrity,
    i: int,
    text: Option<String>,
    windows: bool,
)
    requires
        shown_text(text_demand(integrity, i)) != shown_text(text),
    ensures
        flight_key(destination, integrity, windows) != flight_key(
            destination,
            with_text_demand(integrity, i, text),
            windows,
        ),
{
    let a = integrity;
    let b = with_text_demand(integrity, i, text);
    if flight_key(destination, a, windows) == flight_key(destination, b, windows) {
        lemma_cancel_front(place(destination, windows), demands(a), demands(b));
        lemma_same_rest(
            "\0size="@,
            shown_number(a.size),
            demands_on_content(a),
            demands_on_content(b),
        );
        let last_a = demand("\0content="@, shown_text(a.content), seq![]);
        let last_b = demand("\0content="@, shown_text(b.content), seq![]);
        let hash_a = demand("\0sha256="@, shown_text(a.sha256), demands_on_rest(a));
        let hash_b = demand("\0sha256="@, shown_text(b.sha256), demands_on_rest(b));
        let both_a = demand("\0sha512="@, shown_text(a.sha512), hash_a);
        let both_b = demand("\0sha512="@, shown_text(b.sha512), hash_b);
        if i == 0 {
            lemma_same_shown("\0sha1="@, shown_text(a.sha1), shown_text(b.sha1), both_a);
        } else {
            lemma_same_rest("\0sha1="@, shown_text(a.sha1), both_a, both_b);
            if i == 1 {
                lemma_same_shown("\0sha512="@, shown_text(a.sha512), shown_text(b.sha512), hash_a);
            } else {
                lemma_same_rest("\0sha512="@, shown_text(a.sha512), hash_a, hash_b);
                if i == 2 {
                    lemma_same_shown(
                        "\0sha256="@,
                        shown_text(a.sha256),
                        shown_text(b.sha256),
                        demands_on_rest(a),
                    );
                } else {
                    lemma_same_rest(
                        "\0sha256="@,
                        shown_text(a.sha256),
                        demands_on_rest(a),
                        demands_on_rest(b),
                    );
                    if i == 3 {
                        lemma_same_shown("\0md5="@, shown_text(a.md5), shown_text(b.md5), last_a);
                    } else {
                        lemma_same_rest("\0md5="@, shown_text(a.md5), last_a, last_b);
                        lemma_same_shown(
                            "\0content="@,
                            shown_text(a.content),
                            shown_text(b.content),
                            seq![],
                        );
                    }
                }
            }
        }
    }
}

/// Downloads with the same demands to different places are told apart.
pub proof fn law_different_places_use_different_keys(
    a: Seq<char>,
    b: Seq<char>,
    integrity: Integrity,
    windows: bool,
)
    requires
        place(a, windows) != place(b, windows),
    ensures
        flight_key(a, integrity, windows) != flight_key(b, integrity, windows),
{
    if flight_key(a, integrity, windows) == flight_key(b, integrity, windows) {
        lemma_cancel_back(place(a, windows), place(b, windows), demands(integrity));
    }
}

proof fn lemma_split_at_nul(x: Seq<char>, rest_x: Seq<char>, y: Seq<char>, rest_y: Seq<char>)
    requires
        x + rest_x == y + rest_y,
        !x.contains('\0'),
        !y.contains('\0'),
        rest_x.len() > 0 ==> rest_x[0] == '\0',
        rest_y.len() > 0 ==> rest_y[0] == '\0',
    ensures
        x == y,
        rest_x == rest_y,
{
    let whole = x + rest_x;
    assert(whole.len() == x.len() + rest_x.len());
    assert((y + rest_y).len() == y.len() + rest_y.len());
    if x.len() < y.len() {
        assert(whole[x.len() as int] == rest_x[0]);
        assert((y + rest_y)[x.len() as int] == y[x.len() as int]);
        assert(y.contains(y[x.len() as int]));
    } else if y.len() < x.len() {
        assert((y + rest_y)[y.len() as int] == rest_y[0]);
        assert(whole[y.len() as int] == x[y.len() as int]);
        assert(x.contains(x[y.len() as int]));
    }
    assert(x =~= whole.take(x.len() as int));
    assert(y =~= (y + rest_y).take(y.len() as int));
    lemma_cancel_front(x, rest_x, rest_y);
}

proof fn lemma_split_demand(
    name: Seq<char>,
    shown_x: Seq<char>,
    rest_x: Seq<char>,
    shown_y: Seq<char>,
    rest_y: Seq<char>,
)
    requires
        demand(name, shown_x, rest_x) == demand(name, shown_y, rest_y),
        !shown_x.contains('\0'),
        !shown_y.contains('\0'),
        rest_x.len() > 0 ==> rest_x[0] == '\0',
        rest_y.len() > 0 ==> rest_y[0] == '\0',
    ensures
        shown_x == shown_y,
        rest_x == rest_y,
{
    assert(demand(name, shown_x, rest_x) =~= name + (shown_x + rest_x));
    assert(demand(name, shown_y, rest_y) =~= name + (shown_y + rest_y));
    lemma_cancel_front(name, shown_x + rest_x, shown_y + rest_y);
    lemma_split_at_nul(shown_x, rest_x, shown_y, rest_y);
}

proof fn lemma_demand_starts_with_nul(name: Seq<char>, shown: Seq<char>, rest: Seq<char>)
    requires
        name.len() > 0,
        name[0] == '\0',
    ensures
        demand(name, shown, rest).len() > 0,
        demand(name, shown, rest)[0] == '\0',
{
}

proof fn lemma_numbers_are_shown_without_nul(number: Option<u64>)
    ensures
        !shown_number(number).contains('\0'),
{
    reveal_strlit("Some(");
    reveal_strlit("None");
    reveal_strlit(")");
    let shown = shown_number(number);
    assert forall|i: int| 0 <= i < shown.len() implies shown[i] != '\0' by {
        if let Some(n) = number {
            lemma_numeral_is_digits(n as nat);
            let digits = numeral(n as nat);
            if i >= 5 && i < 5 + digits.len() {
                assert(shown[i] == digits[i - 5]);
            } else if i < 5 {
                assert(shown[i] == "Some("@[i]);
            } else {
                assert(shown[i] == ")"@[0]);
            }
        }
    }
}

/// Whether no text that a download demands is shown with a null character in it.
pub open spec fn shown_without_nul(integrity: Integrity) -> bool {
    forall|i: int|
        0 <= i < 5 ==> !(#[trigger] shown_text(text_demand(integrity, i))).contains('\0')
}

/// Downloads have the same key only if their files are put in the same place and
/// all that is demanded of them is shown alike. A place holds no null character,
/// and neither does what is shown.
pub proof fn law_equal_keys_have_equal_parts(
    place_a: Seq<char>,
    a: Integrity,
    place_b: Seq<char>,
    b: Integrity,
    windows: bool,
)
    requires
        flight_key(place_a, a, windows) == flight_key(place_b, b, windows),
        !place(place_a, windows).contains('\0'),
        !place(place_b, windows).contains('\0'),
        shown_without_nul(a),
        shown_without_nul(b),
    ensures
        place(place_a, windows) == place(place_b, windows),
        a.size == b.size,
        forall|i: int|
            0 <= i < 5 ==> #[trigger] shown_text(text_demand(a, i)) == shown_text(
                text_demand(b, i),
            ),
{
    reveal_strlit("\0size=");
    reveal_strlit("\0sha1=");
    reveal_strlit("\0sha512=");
    reveal_strlit("\0sha256=");
    reveal_strlit("\0md5=");
    reveal_strlit("\0content=");
    assert(forall|i: int|
        0 <= i < 5 ==> !(#[trigger] shown_text(text_demand(a, i))).contains('\0')
            && !shown_text(text_demand(b, i)).contains('\0'));
    assert(text_demand(a, 0) == a.sha1 && text_demand(b, 0) == b.sha1);
    assert(text_demand(a, 1) == a.sha512 && text_demand(b, 1) == b.sha512);
    assert(text_demand(a, 2) == a.sha256 && text_demand(b, 2) == b.sha256);
    assert(text_demand(a, 3) == a.md5 && text_demand(b, 3) == b.md5);
    assert(text_demand(a, 4) == a.content && text_demand(b, 4) == b.content);
    lemma_numbers_are_shown_without_nul(a.size);
    lemma_numbers_are_shown_without_nul(b.size);
    let last_a = demand("\0content="@, shown_text(a.content), seq![]);
    let last_b = demand("\0content="@, shown_text(b.content), seq![]);
    let hash_a = demand("\0sha256="@, shown_text(a.sha256), demands_on_rest(a));
    let hash_b = demand("\0sha256="@, shown_text(b.sha256), demands_on_rest(b));
    let both_a = demand("\0sha512="@, shown_text(a.sha512), hash_a);
    let both_b = demand("\0sha512="@, shown_text(b.sha512), hash_b);
    lemma_demand_starts_with_nul("\0size="@, shown_number(a.size), demands_on_content(a));
    lemma_demand_starts_with_nul("\0size="@, shown_number(b.size), demands_on_content(b));
    lemma_split_at_nul(place(place_a, windows), demands(a), place(place_b, windows), demands(b));
    lemma_demand_starts_with_nul("\0sha1="@, shown_text(a.sha1), both_a);
    lemma_demand_starts_with_nul("\0sha1="@, shown_text(b.sha1), both_b);
    lemma_split_demand(
        "\0size="@,
        shown_number(a.size),
        demands_on_content(a),
        shown_number(b.size),
        demands_on_content(b),
    );
    lemma_numbers_are_shown_apart(a.size, b.size);
    lemma_split_demand("\0sha1="@, shown_text(a.sha1), both_a, shown_text(b.sha1), both_b);
    lemma_split_demand("\0sha512="@, shown_text(a.sha512), hash_a, shown_text(b.sha512), hash_b);
    lemma_split_demand(
        "\0sha256="@,
        shown_text(a.sha256),
        demands_on_rest(a),
        shown_text(b.sha256),
        demands_on_rest(b),
    );
    lemma_split_demand("\0md5="@, shown_text(a.md5), last_a, shown_text(b.md5), last_b);
    lemma_split_demand("\0content="@, shown_text(a.content), seq![], shown_text(b.content), seq![]);
}

/// Whether a demand is for no text, or for one of letters and digits only.
pub open spec fn is_plain_demand(text: Option<String>) -> bool {
    text matches Some(t) ==> is_plain(t@)
}

/// Whether the texts that two downloads demand hold letters and digits only
/// wherever they differ.
pub open spec fn differ_in_plain_texts(a: Integrity, b: Integrity) -> bool {
    forall|i: int|
        0 <= i < 5 ==> opt_view(#[trigger] text_demand(a, i)) == opt_view(text_demand(b, i)) || (
        is_plain_demand(text_demand(a, i)) && is_plain_demand(text_demand(b, i)))
}

proof fn lemma_plain_text_is_shown(text: Option<String>)
    requires
        is_plain_demand(text),
    ensures
        !shown_text(text).contains('\0'),
        text matches Some(t) ==> shown_text(text).len() == t@.len() + 8 && shown_text(text).subrange(
            6,
            shown_text(text).len() - 2,
        ) == t@ && shown_text(text)[0] == 'S',
        text is None ==> shown_text(text)[0] == 'N',
{
    reveal_strlit("Some(");
    reveal_strlit("None");
    reveal_strlit(")");
    reveal_strlit("\"");
    let shown = shown_text(text);
    if let Some(t) = text {
        assert(shown =~= "Some("@ + ("\""@ + t@ + "\""@) + ")"@);
        assert(shown.subrange(6, shown.len() - 2) =~= t@);
        assert forall|i: int| 0 <= i < shown.len() implies shown[i] != '\0' by {
            if i >= 6 && i < 6 + t@.len() {
                assert(shown[i] == t@[i - 6]);
            } else if i < 5 {
                assert(shown[i] == "Some("@[i]);
            } else if i == 5 || i == 6 + t@.len() {
                assert(shown[i] == "\""@[0]);
            } else {
                assert(shown[i] == ")"@[0]);
            }
        }
    }
}

proof fn lemma_split_text_demand(
    name: Seq<char>,
    x: Option<String>,
    rest_x: Seq<char>,
    y: Option<String>,
    rest_y: Seq<char>,
)
    requires
        demand(name, shown_text(x), rest_x) == demand(name, shown_text(y), rest_y),
        opt_view(x) == opt_view(y) || is_plain_demand(x) && is_plain_demand(y),
        rest_x.len() > 0 ==> rest_x[0] == '\0',
        rest_y.len() > 0 ==> rest_y[0] == '\0',
    ensures
        opt_view(x) == opt_view(y),
        rest_x == rest_y,
{
    if opt_view(x) == opt_view(y) {
        assert(shown_text(x) == shown_text(y));
        lemma_same_rest(name, shown_text(x), rest_x, rest_y);
    } else {
        lemma_plain_text_is_shown(x);
        lemma_plain_text_is_shown(y);
        lemma_split_demand(name, shown_text(x), rest_x, shown_text(y), rest_y);
    }
}

/// Whether two downloads demand the same.
pub open spec fn same_demands(a: Integrity, b: Integrity) -> bool {
    &&& a.size == b.size
    &&& opt_view(a.sha1) == opt_view(b.sha1)
    &&& opt_view(a.sha512) == opt_view(b.sha512)
    &&& opt_view(a.sha256) == opt_view(b.sha256)
    &&& opt_view(a.md5) == opt_view(b.md5)
    &&& opt_view(a.content) == opt_view(b.content)
}

/// Downloads that put their files in the same place and demand the same are the
/// same flight, whatever it is that they demand.
pub proof fn law_same_downloads_are_one_flight(
    place_a: Seq<char>,
    a: Integrity,
    place_b: Seq<char>,
    b: Integrity,
    windows: bool,
)
    requires
        place(place_a, windows) == place(place_b, windows),
        same_demands(a, b),
    ensures
        flight_key(place_a, a, windows) == flight_key(place_b, b, windows),
{
    assert(shown_text(a.sha1) == shown_text(b.sha1));
    assert(shown_text(a.sha512) == shown_text(b.sha512));
    assert(shown_text(a.sha256) == shown_text(b.sha256));
    assert(shown_text(a.md5) == shown_text(b.md5));
    assert(shown_text(a.content) == shown_text(b.content));
}

/// Downloads are the same flight if and only if their files are put in the same
/// place and the same is demanded of them. A place holds no null character.
/// Where two demands differ, they are for letters and digits, as hashes are; of
/// other texts it is not known that different ones are shown differently.
pub proof fn law_same_flight_means_same_download(
    place_a: Seq<char>,
    a: Integrity,
    place_b: Seq<char>,
    b: Integrity,
    windows: bool,
)
    requires
        !place(place_a, windows).contains('\0'),
        !place(place_b, windows).contains('\0'),
        differ_in_plain_texts(a, b),
    ensures
        flight_key(place_a, a, windows) == flight_key(place_b, b, windows) <==> {
            &&& place(place_a, windows) == place(place_b, windows)
            &&& same_demands(a, b)
        },
{
    if place(place_a, windows) == place(place_b, windows) && same_demands(a, b) {
        law_same_downloads_are_one_flight(place_a, a, place_b, b, windows);
    }
    if flight_key(place_a, a, windows) == flight_key(place_b, b, windows) {
        reveal_strlit("\0size=");
        reveal_strlit("\0sha1=");
        reveal_strlit("\0sha512=");
        reveal_strlit("\0sha256=");
        reveal_strlit("\0md5=");
        reveal_strlit("\0content=");
        assert(text_demand(a, 0) == a.sha1 && text_demand(b, 0) == b.sha1);
        assert(text_demand(a, 1) == a.sha512 && text_demand(b, 1) == b.sha512);
        assert(text_demand(a, 2) == a.sha256 && text_demand(b, 2) == b.sha256);
        assert(text_demand(a, 3) == a.md5 && text_demand(b, 3) == b.md5);
        assert(text_demand(a, 4) == a.content && text_demand(b, 4) == b.content);
        lemma_numbers_are_shown_without_nul(a.size);
        lemma_numbers_are_shown_without_nul(b.size);
        let last_a = demand("\0content="@, shown_text(a.content), seq![]);
        let last_b = demand("\0content="@, shown_text(b.content), seq![]);
        let hash_a = demand("\0sha256="@, shown_text(a.sha256), demands_on_rest(a));
        let hash_b = demand("\0sha256="@, shown_text(b.sha256), demands_on_rest(b));
        let both_a = demand("\0sha512="@, shown_text(a.sha512), hash_a);
        let both_b = demand("\0sha512="@, shown_text(b.sha512), hash_b);
        lemma_split_at_nul(
            place(place_a, windows),
            demands(a),
            place(place_b, windows),
            demands(b),
        );
        lemma_split_demand(
            "\0size="@,
            shown_number(a.size),
            demands_on_content(a),
            shown_number(b.size),
            demands_on_content(b),
        );
        lemma_numbers_are_shown_apart(a.size, b.size);
        lemma_split_text_demand("\0sha1="@, a.sha1, both_a, b.sha1, both_b);
        lemma_split_text_demand("\0sha512="@, a.sha512, hash_a, b.sha512, hash_b);
        lemma_split_text_demand(
            "\0sha256="@,
            a.sha256,
            demands_on_rest(a),
            b.sha256,
            demands_on_rest(b),
        );
        lemma_split_text_demand("\0md5="@, a.md5, last_a, b.md5, last_b);
        lemma_split_text_demand("\0content="@, a.content, seq![], b.content, seq![]);
    }
}

/// What a download has to do with others.
#[derive(Clone, Copy, Debug, PartialEq, Eq, Structural)]
pub enum FlightRole {
    /// Nothing: nothing is demanded of its file, so it is done on its own.
    Alone,
    /// It is done, and others take its result.
    Leader,
    /// It takes the result of another.
    Follower,
}

/// What a download has to do with others. `in_flight` says whether one under the
/// same key is being done.
pub fn flight_role(integrity: &Integrity, in_flight: bool) -> (r: FlightRole)
    ensures
        r == if integrity.demands_nothing() {
            FlightRole::Alone
        } else if in_flight {
            FlightRole::Follower
        } else {
            FlightRole::Leader
        },
{
    if integrity.is_empty() {
        FlightRole::Alone
    } else if in_flight {
        FlightRole::Follower
    } else {
        FlightRole::Leader
    }
}

/// A download that others may take the result of.
#[derive(Debug)]
pub struct Flight<R> {
    pub result: Option<R>,
}

/// What a follower does.
#[derive(Debug)]
pub enum FollowerStep<R> {
    /// It takes the result.
    Take(R),
    /// It waits until the leader is done.
    Wait,
    /// It does the download itself.
    Run,
}

/// What is shared once the leader is done with `result`, or has failed.
pub open spec fn landed<R>(shared: Option<R>, result: Option<R>) -> Option<R> {
    match result {
        Some(result) => Some(result),
        None => shared,
    }
}

/// What a follower does before the leader is done.
pub open spec fn first_step<R>(shared: Option<R>) -> FollowerStep<R> {
    match shared {
        Some(result) => FollowerStep::Take(result),
        None => FollowerStep::Wait,
    }
}

/// What a follower does once the leader is done.
pub open spec fn second_step<R>(shared: Option<R>) -> FollowerStep<R> {
    match shared {
        Some(result) => FollowerStep::Take(result),
        None => FollowerStep::Run,
    }
}

/// The result of the leader is what every follower takes, whether it comes before
/// or after the leader is done: none of them does the download.
pub proof fn law_followers_take_the_result<R>(shared: Option<R>, result: R)
    ensures
        first_step(landed(shared, Some(result))) == FollowerStep::Take(result),
        second_step(landed(shared, Some(result))) == FollowerStep::Take(result),
{
}

/// A failure of the leader is not shared: its followers do the download
/// themselves.
pub proof fn law_failures_are_not_shared<R>()
    ensures
        landed(None::<R>, None) is None,
        first_step(landed(None::<R>, None)) is Wait,
        second_step(landed(None::<R>, None)) is Run,
{
}

impl<R> Flight<R> {
    /// A download that is being done.
    pub fn new() -> (r: Self)
        ensures
            r.result is None,
    {
        Flight { result: None }
    }

    /// Takes the outcome of the leader: a result is shared, a failure is not.
    pub fn land(&mut self, result: Option<R>)
        ensures
            final(self).result == landed(old(self).result, result),
    {
        if result.is_some() {
            self.result = result;
        }
    }
}

/// What a follower does before the leader is done, given the result that is
/// shared by then.
pub fn follow<R>(shared: Option<R>) -> (r: FollowerStep<R>)
    ensures
        r == first_step(shared),
{
    match shared {
        Some(result) => FollowerStep::Take(result),
        None => FollowerStep::Wait,
    }
}

/// What a follower does once the leader is done, given the result that is shared
/// by then.
pub fn after_notice<R>(shared: Option<R>) -> (r: FollowerStep<R>)
    ensures
        r == second_step(shared),
{
    match shared {
        Some(result) => FollowerStep::Take(result),
        None => FollowerStep::Run,
    }
}

/// A key names the place and then every demand, each under its name, with what is demanded
/// or that nothing is.
pub proof fn law_keys_name_every_demand(
    destination: Seq<char>,
    integrity: Integrity,
    windows: bool,
)
    ensures
        ({
            let content = "\0content="@ + shown_text(integrity.content) + seq![];
            let md5 = "\0md5="@ + shown_text(integrity.md5) + content;
            let sha256 = "\0sha256="@ + shown_text(integrity.sha256) + md5;
            let sha512 = "\0sha512="@ + shown_text(integrity.sha512) + sha256;
            let sha1 = "\0sha1="@ + shown_text(integrity.sha1) + sha512;
            let size = "\0size="@ + shown_number(integrity.size) + sha1;
            flight_key(destination, integrity, windows) == place(destination, windows) + size
        }),
{
}

/// A demand that is made is shown with what is demanded; one that is not is shown as such.
pub proof fn law_how_demands_are_shown(text: Option<String>, number: Option<u64>)
    ensures
        text is None ==> shown_text(text) == "None"@,
        number is None ==> shown_number(number) == "None"@,
        number is Some ==> shown_number(number) == "Some("@ + numeral(number->0 as nat) + ")"@,
        text is Some && is_plain(text->0@) ==> shown_text(text) == "Some("@ + ("\""@ + text->0@
            + "\""@) + ")"@,
{
}

/// On Windows the case of the letters of a place does not count; elsewhere it does.
pub proof fn law_where_case_counts(destination: Seq<char>)
    ensures
        place(destination, false) == destination,
        place(destination, true) == uppercase(destination),
{
}

/// Nothing is demanded exactly if no size, no hash and no kind of content is.
pub proof fn law_when_nothing_is_demanded(integrity: Integrity)
    ensures
        integrity.demands_nothing() <==> integrity.size is None && forall|i: int|
            0 <= i < 5 ==> (#[trigger] text_demand(integrity, i)) is None,
{
    if forall|i: int| 0 <= i < 5 ==> (#[trigger] text_demand(integrity, i)) is None {
        assert(text_demand(integrity, 0) is None);
        assert(text_demand(integrity, 1) is None);
        assert(text_demand(integrity, 2) is None);
        assert(text_demand(integrity, 3) is None);
        assert(text_demand(integrity, 4) is None);
    }
}

/// A result that was shared stays: a failure that comes later does not take it back, and a
/// follower takes it whenever it asks.
pub proof fn law_shared_results_stay<R>(shared: R)
    ensures
        landed(Some(shared), None) == Some(shared),
        first_step(Some(shared)) == FollowerStep::Take(shared),
        second_step(Some(shared)) == FollowerStep::Take(shared),
        first_step(None::<R>) is Wait,
        second_step(None::<R>) is Run,
{
}

} // verus!
