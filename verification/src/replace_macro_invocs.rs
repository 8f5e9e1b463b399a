//! Redirects the invocations of a macro's internal rules to its internal twin.

use crate::text::{stream_text, text_equal, text_of, text_starts_with, text_view};
use crate::token::{lemma_group_view, GroupDelimiter, PunctSpacing, Token, TokenSpec};
use vstd::prelude::*;

verus! {

/// The tokens of `$crate::internal`, which take the place of the macro's own name.
pub open spec fn crate_path(internal: Seq<char>) -> Seq<TokenSpec> {
    seq![
        TokenSpec::Punct('$', PunctSpacing::Alone),
        TokenSpec::Ident("crate"@),
        TokenSpec::Punct(':', PunctSpacing::Joint),
        TokenSpec::Punct(':', PunctSpacing::Alone),
        TokenSpec::Ident(internal),
    ]
}

/// Whether `text` begins with `marker`, where both are there.
pub open spec fn text_is_marked(text: Option<Seq<char>>, marker: Option<Seq<char>>) -> bool {
    match (text, marker) {
        (Some(text), Some(marker)) => marker.is_prefix_of(text),
        _ => false,
    }
}

/// Whether the text of `stream` begins with the text of `marker`.
pub open spec fn starts_with_marker(stream: Seq<TokenSpec>, marker: Seq<TokenSpec>) -> bool {
    text_is_marked(text_of(stream), text_of(marker))
}

/// Whether token `i` of `stream` is the name in an invocation of an internal
/// rule: the identifier `public`, then `!`, then a group with visible
/// brackets whose inside starts with the marker.
pub open spec fn invokes_internal(
    stream: Seq<TokenSpec>,
    i: int,
    public: Seq<char>,
    marker: Seq<TokenSpec>,
) -> bool {
    &&& 0 <= i
    &&& i + 2 < stream.len()
    &&& stream[i] == TokenSpec::Ident(public)
    &&& stream[i + 1] matches TokenSpec::Punct(ch, _)
    &&& ch == '!'
    &&& stream[i + 2] matches TokenSpec::Group(delimiter, inside)
    &&& delimiter != GroupDelimiter::Invisible
    &&& starts_with_marker(inside, marker)
}

/// What the first `n` tokens of `stream` become.
pub open spec fn replaced_prefix(
    stream: Seq<TokenSpec>,
    n: int,
    public: Seq<char>,
    internal: Seq<char>,
    marker: Seq<TokenSpec>,
) -> Seq<TokenSpec>
    decreases stream, n,
{
    if n <= 0 || n > stream.len() {
        Seq::empty()
    } else {
        replaced_prefix(stream, n - 1, public, internal, marker) + replaced_at(
            stream,
            n - 1,
            public,
            internal,
            marker,
        )
    }
}

/// What token `i` of `stream` becomes: a group keeps its brackets around what
/// its inside becomes, the name in an invocation of an internal rule becomes
/// `$crate::internal`, and any other token stays.
pub open spec fn replaced_at(
    stream: Seq<TokenSpec>,
    i: int,
    public: Seq<char>,
    internal: Seq<char>,
    marker: Seq<TokenSpec>,
) -> Seq<TokenSpec>
    decreases stream, 0int,
{
    if 0 <= i < stream.len() {
        match stream[i] {
            TokenSpec::Group(delimiter, inside) => seq![
                TokenSpec::Group(
                    delimiter,
                    replaced_prefix(inside, inside.len() as int, public, internal, marker),
                ),
            ],
            _ => if invokes_internal(stream, i, public, marker) {
                crate_path(internal)
            } else {
                seq![stream[i]]
            },
        }
    } else {
        Seq::empty()
    }
}

/// What `stream` becomes when the invocations of internal rules in it, at any
/// depth, are redirected from `public` to `$crate::internal`.
pub open spec fn replaced(
    stream: Seq<TokenSpec>,
    public: Seq<char>,
    internal: Seq<char>,
    marker: Seq<TokenSpec>,
) -> Seq<TokenSpec> {
    replaced_prefix(stream, stream.len() as int, public, internal, marker)
}

/// No invocation of an internal rule stands in `stream`, at any depth.
pub open spec fn redirect_free(
    stream: Seq<TokenSpec>,
    public: Seq<char>,
    marker: Seq<TokenSpec>,
) -> bool
    decreases stream,
{
    forall|i: int|
        0 <= i < stream.len() ==> {
            &&& !invokes_internal(stream, i, public, marker)
            &&& (#[trigger] stream[i] matches TokenSpec::Group(_, inside) ==> redirect_free(
                inside,
                public,
                marker,
            ))
        }
}

/// `inside` within one group for each of `delimiters`, the first outermost.
pub open spec fn nested(delimiters: Seq<GroupDelimiter>, inside: Seq<TokenSpec>) -> Seq<TokenSpec>
    decreases delimiters.len(),
{
    if delimiters.len() == 0 {
        inside
    } else {
        seq![TokenSpec::Group(delimiters[0], nested(delimiters.drop_first(), inside))]
    }
}

proof fn lemma_replaced_prefix_extends(
    stream: Seq<TokenSpec>,
    m: int,
    n: int,
    public: Seq<char>,
    internal: Seq<char>,
    marker: Seq<TokenSpec>,
)
    requires
        0 <= m <= n <= stream.len(),
    ensures
        replaced_prefix(stream, m, public, internal, marker).is_prefix_of(
            replaced_prefix(stream, n, public, internal, marker),
        ),
    decreases n - m,
{
    if m < n {
        lemma_replaced_prefix_extends(stream, m, n - 1, public, internal, marker);
        let short = replaced_prefix(stream, m, public, internal, marker);
        let less = replaced_prefix(stream, n - 1, public, internal, marker);
        let all = replaced_prefix(stream, n, public, internal, marker);
        assert(all == less + replaced_at(stream, n - 1, public, internal, marker));
        assert(short =~= all.subrange(0, short.len() as int));
    } else {
        let short = replaced_prefix(stream, m, public, internal, marker);
        assert(short =~= short.subrange(0, short.len() as int));
    }
}

/// An invocation of an internal rule is redirected: where token `i` of
/// `stream` is the macro's name, followed by `!` and by a group whose inside
/// starts with the marker, what the stream becomes holds `$crate::internal`
/// in the place of the name, then the `!` unchanged, then the group, with
/// its own brackets around what its inside becomes.
pub proof fn lemma_invocation_redirected(
    stream: Seq<TokenSpec>,
    i: int,
    public: Seq<char>,
    internal: Seq<char>,
    marker: Seq<TokenSpec>,
)
    requires
        invokes_internal(stream, i, public, marker),
    ensures
        ({
            let out = replaced(stream, public, internal, marker);
            let at = replaced_prefix(stream, i, public, internal, marker).len() as int;
            &&& at + 7 <= out.len()
            &&& out.subrange(at, at + 5) == crate_path(internal)
            &&& out[at + 5] == stream[i + 1]
            &&& out[at + 6] == TokenSpec::Group(
                stream[i + 2]->Group_0,
                replaced(stream[i + 2]->Group_1, public, internal, marker),
            )
        }),
{
    let out = replaced(stream, public, internal, marker);
    let before = replaced_prefix(stream, i, public, internal, marker);
    let with_path = replaced_prefix(stream, i + 1, public, internal, marker);
    let with_bang = replaced_prefix(stream, i + 2, public, internal, marker);
    let with_group = replaced_prefix(stream, i + 3, public, internal, marker);
    assert(with_path == before + replaced_at(stream, i, public, internal, marker));
    assert(with_bang == with_path + replaced_at(stream, i + 1, public, internal, marker));
    assert(with_group == with_bang + replaced_at(stream, i + 2, public, internal, marker));
    assert(replaced_at(stream, i, public, internal, marker) == crate_path(internal));
    assert(!invokes_internal(stream, i + 1, public, marker));
    assert(replaced_at(stream, i + 1, public, internal, marker) == seq![stream[i + 1]]);
    lemma_replaced_prefix_extends(stream, i + 3, stream.len() as int, public, internal, marker);
    let at = before.len() as int;
    assert(with_group.len() == at + 7);
    assert(out.subrange(0, at + 7) == with_group);
    assert(out.subrange(at, at + 5) =~= crate_path(internal)) by {
        assert forall|k: int| 0 <= k < 5 implies out.subrange(at, at + 5)[k] == crate_path(
            internal,
        )[k] by {
            assert(out.subrange(0, at + 7)[at + k] == with_group[at + k]);
        }
    }
    assert(out.subrange(0, at + 7)[at + 5] == with_group[at + 5]);
    assert(out.subrange(0, at + 7)[at + 6] == with_group[at + 6]);
}

/// What an invocation of the macro becomes, taken alone: where its
/// arguments stand in visible brackets and start with the marker, the name
/// becomes `$crate::internal`; else the name stays. Either way the `!` stays,
/// and the brackets stay around what the arguments become.
pub proof fn lemma_invocation_alone(
    public: Seq<char>,
    internal: Seq<char>,
    marker: Seq<TokenSpec>,
    spacing: PunctSpacing,
    delimiter: GroupDelimiter,
    arguments: Seq<TokenSpec>,
)
    ensures
        ({
            let bang = TokenSpec::Punct('!', spacing);
            let invocation = seq![
                TokenSpec::Ident(public),
                bang,
                TokenSpec::Group(delimiter, arguments),
            ];
            let group = TokenSpec::Group(
                delimiter,
                replaced(arguments, public, internal, marker),
            );
            replaced(invocation, public, internal, marker) == if delimiter
                != GroupDelimiter::Invisible && starts_with_marker(arguments, marker) {
                crate_path(internal) + seq![bang, group]
            } else {
                seq![TokenSpec::Ident(public), bang, group]
            }
        }),
{
    let bang = TokenSpec::Punct('!', spacing);
    let invocation = seq![TokenSpec::Ident(public), bang, TokenSpec::Group(delimiter, arguments)];
    let group = TokenSpec::Group(delimiter, replaced(arguments, public, internal, marker));
    let first = replaced_at(invocation, 0, public, internal, marker);
    assert(replaced_prefix(invocation, 0, public, internal, marker) =~= Seq::empty());
    assert(replaced_prefix(invocation, 1, public, internal, marker) =~= first);
    assert(replaced_at(invocation, 1, public, internal, marker) == seq![bang]);
    assert(replaced_prefix(invocation, 2, public, internal, marker) =~= first + seq![bang]);
    assert(replaced_at(invocation, 2, public, internal, marker) == seq![group]);
    assert(replaced(invocation, public, internal, marker) =~= first + seq![bang, group]);
}

/// A stream without an invocation of an internal rule, at any depth, stays
/// as it is.
pub proof fn lemma_redirect_free_unchanged(
    stream: Seq<TokenSpec>,
    public: Seq<char>,
    internal: Seq<char>,
    marker: Seq<TokenSpec>,
)
    requires
        redirect_free(stream, public, marker),
    ensures
        replaced(stream, public, internal, marker) == stream,
    decreases stream, stream.len() + 1,
{
    lemma_redirect_free_prefix(stream, stream.len() as int, public, internal, marker);
    assert(stream.subrange(0, stream.len() as int) =~= stream);
}

proof fn lemma_redirect_free_prefix(
    stream: Seq<TokenSpec>,
    n: int,
    public: Seq<char>,
    internal: Seq<char>,
    marker: Seq<TokenSpec>,
)
    requires
        redirect_free(stream, public, marker),
        0 <= n <= stream.len(),
    ensures
        replaced_prefix(stream, n, public, internal, marker) == stream.subrange(0, n),
    decreases stream, n,
{
    if n == 0 {
        assert(replaced_prefix(stream, n, public, internal, marker) =~= stream.subrange(0, n));
    } else {
        lemma_redirect_free_prefix(stream, n - 1, public, internal, marker);
        let token = stream[n - 1];
        match token {
            TokenSpec::Group(delimiter, inside) => {
                lemma_redirect_free_unchanged(inside, public, internal, marker);
            },
            _ => {},
        }
        assert(replaced_at(stream, n - 1, public, internal, marker) == seq![token]);
        assert(replaced_prefix(stream, n, public, internal, marker) =~= stream.subrange(0, n));
    }
}

/// Redirection reaches through any chain of nested groups: what a stream
/// inside the chain becomes stands inside the same chain.
pub proof fn lemma_nested_replaced(
    delimiters: Seq<GroupDelimiter>,
    inside: Seq<TokenSpec>,
    public: Seq<char>,
    internal: Seq<char>,
    marker: Seq<TokenSpec>,
)
    ensures
        replaced(nested(delimiters, inside), public, internal, marker) == nested(
            delimiters,
            replaced(inside, public, internal, marker),
        ),
    decreases delimiters.len(),
{
    if delimiters.len() > 0 {
        let rest = delimiters.drop_first();
        lemma_nested_replaced(rest, inside, public, internal, marker);
        let stream = nested(delimiters, inside);
        assert(stream == seq![TokenSpec::Group(delimiters[0], nested(rest, inside))]);
        assert(replaced_prefix(stream, 0, public, internal, marker) =~= Seq::empty());
        assert(replaced(stream, public, internal, marker) =~= replaced_at(
            stream,
            0,
            public,
            internal,
            marker,
        ));
    }
}

/// Whether `text` begins with `marker`, where both are there.
pub fn is_marked(text: &Option<String>, marker: &Option<String>) -> (marked: bool)
    ensures
        marked == text_is_marked(text_view(*text), text_view(*marker)),
{
    match text {
        Some(text) => match marker {
            Some(marker) => text_starts_with(text.as_str(), marker.as_str()),
            None => false,
        },
        None => false,
    }
}

fn invokes_internal_at(
    stream: &Vec<Token>,
    i: usize,
    pub_ident: &str,
    marker_text: &Option<String>,
    Ghost(marker): Ghost<Seq<TokenSpec>>,
) -> (invokes: bool)
    requires
        i < stream.len(),
        text_view(*marker_text) == text_of(marker),
    ensures
        invokes == invokes_internal(stream.deep_view(), i as int, pub_ident@, marker),
{
    if stream.len() - i < 3 {
        return false;
    }
    let named = match &stream[i] {
        Token::Ident(name) => text_equal(name.as_str(), pub_ident),
        _ => false,
    };
    let bang = match &stream[i + 1] {
        Token::Punct(ch, _) => *ch == '!',
        _ => false,
    };
    if !named || !bang {
        return false;
    }
    match &stream[i + 2] {
        Token::Group(delimiter, inside) => {
            proof {
                lemma_group_view(*delimiter, *inside);
            }
            match delimiter {
                GroupDelimiter::Invisible => false,
                _ => {
                    let text = stream_text(inside);
                    is_marked(&text, marker_text)
                },
            }
        },
        _ => false,
    }
}

fn replace_in(
    stream: &Vec<Token>,
    pub_ident: &str,
    priv_ident: &str,
    marker_text: &Option<String>,
    Ghost(marker): Ghost<Seq<TokenSpec>>,
) -> (out: Vec<Token>)
    requires
        text_view(*marker_text) == text_of(marker),
    ensures
        out.deep_view() == replaced(stream.deep_view(), pub_ident@, priv_ident@, marker),
    decreases stream,
{
    let mut out: Vec<Token> = Vec::new();
    let mut i: usize = 0;
    assert(out.deep_view() =~= Seq::empty());
    while i < stream.len()
        invariant
            i <= stream.len(),
            text_view(*marker_text) == text_of(marker),
            out.deep_view() == replaced_prefix(
                stream.deep_view(),
                i as int,
                pub_ident@,
                priv_ident@,
                marker,
            ),
        decreases stream.len() - i,
    {
        let ghost before = out.deep_view();
        let ghost piece = replaced_at(
            stream.deep_view(),
            i as int,
            pub_ident@,
            priv_ident@,
            marker,
        );
        match &stream[i] {
            Token::Group(delimiter, inside) => {
                let inner = replace_in(inside, pub_ident, priv_ident, marker_text, Ghost(marker));
                proof {
                    lemma_group_view(*delimiter, *inside);
                    lemma_group_view(*delimiter, inner);
                }
                out.push(Token::Group(*delimiter, inner));
                assert(out.deep_view() =~= before + piece);
            },
            token => {
                if invokes_internal_at(stream, i, pub_ident, marker_text, Ghost(marker)) {
                    out.push(Token::Punct('$', PunctSpacing::Alone));
                    out.push(Token::Ident("crate".to_owned()));
                    out.push(Token::Punct(':', PunctSpacing::Joint));
                    out.push(Token::Punct(':', PunctSpacing::Alone));
                    out.push(Token::Ident(priv_ident.to_owned()));
                    assert(out.deep_view() =~= before + piece);
                } else {
                    out.push(token.clone());
                    assert(out.deep_view() =~= before + piece);
                }
            },
        }
        i += 1;
    }
    out
}

/// Redirects every invocation of an internal rule in `stream`, at any depth:
/// where the identifier `pub_ident` is followed by `!` and by a group with
/// visible brackets whose inside, as text, starts with the text of
/// `priv_marker`, the identifier becomes `$crate::priv_ident`. The group of
/// the invocation and every other token stay in their order.
pub fn replace_macro_invocs(
    stream: Vec<Token>,
    pub_ident: &str,
    priv_ident: &str,
    priv_marker: &Vec<Token>,
) -> (out: Vec<Token>)
    ensures
        out.deep_view() == replaced(
            stream.deep_view(),
            pub_ident@,
            priv_ident@,
            priv_marker.deep_view(),
        ),
{
    let marker_text = stream_text(priv_marker);
    replace_in(&stream, pub_ident, priv_ident, &marker_text, Ghost(priv_marker.deep_view()))
}

} // verus!
