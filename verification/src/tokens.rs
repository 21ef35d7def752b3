use vstd::prelude::*;

verus! {

/// The delimiter of a bracketed token group.
#[derive(Debug, Clone, Copy, PartialEq, Eq, Structural)]
pub enum Delimiter {
    /// `( ... )`
    Parenthesis,
    /// `{ ... }`
    Brace,
}

/// One token of generated code.
///
/// Groups are flattened: a group is written as `Open(d)`, its contents, and
/// `Close(d)`. Every punctuation character stands alone (it is not joined to
/// the next character).
#[derive(Debug, PartialEq, Eq)]
pub enum CodeToken {
    /// An identifier or keyword, such as `pub` or `Foo`.
    Ident(String),
    /// A single punctuation character, such as `:` or `,`.
    Punct(char),
    /// The opening bracket of a group.
    Open(Delimiter),
    /// The closing bracket of a group.
    Close(Delimiter),
}

/// The mathematical value of a [`CodeToken`].
pub enum TokenModel {
    Ident(Seq<char>),
    Punct(char),
    Open(Delimiter),
    Close(Delimiter),
}

impl View for CodeToken {
    type V = TokenModel;

    open spec fn view(&self) -> TokenModel {
        match self {
            CodeToken::Ident(s) => TokenModel::Ident(s@),
            CodeToken::Punct(c) => TokenModel::Punct(*c),
            CodeToken::Open(d) => TokenModel::Open(*d),
            CodeToken::Close(d) => TokenModel::Close(*d),
        }
    }
}

/// The models of a sequence of tokens.
pub open spec fn model(toks: Seq<CodeToken>) -> Seq<TokenModel> {
    Seq::new(toks.len(), |i: int| toks[i]@)
}

/// Concatenation of token sequences, in order.
pub open spec fn concat_parts(parts: Seq<Seq<TokenModel>>) -> Seq<TokenModel>
    decreases parts.len(),
{
    if parts.len() == 0 {
        Seq::empty()
    } else {
        concat_parts(parts.drop_last()) + parts.last()
    }
}

/// Token sequences separated by commas, with no comma after the last one.
pub open spec fn comma_separated(parts: Seq<Seq<TokenModel>>) -> Seq<TokenModel>
    decreases parts.len(),
{
    if parts.len() == 0 {
        Seq::empty()
    } else if parts.len() == 1 {
        parts[0]
    } else {
        comma_separated(parts.drop_last()) + seq![TokenModel::Punct(',')] + parts.last()
    }
}

pub proof fn lemma_model_push(toks: Seq<CodeToken>, t: CodeToken)
    ensures
        model(toks.push(t)) == model(toks).push(t@),
{
    assert(model(toks.push(t)) =~= model(toks).push(t@));
}

pub proof fn lemma_model_add(a: Seq<CodeToken>, b: Seq<CodeToken>)
    ensures
        model(a + b) == model(a) + model(b),
{
    assert(model(a + b) =~= model(a) + model(b));
}

/// Pushes an identifier token.
pub(crate) fn push_ident(out: &mut Vec<CodeToken>, name: String)
    ensures
        model(final(out)@) == model(old(out)@).push(TokenModel::Ident(name@)),
{
    proof {
        lemma_model_push(out@, CodeToken::Ident(name));
    }
    out.push(CodeToken::Ident(name));
}

/// Pushes an identifier token spelled by a string literal.
pub(crate) fn push_keyword(out: &mut Vec<CodeToken>, word: &str)
    ensures
        model(final(out)@) == model(old(out)@).push(TokenModel::Ident(word@)),
{
    push_ident(out, word.to_owned());
}

/// Pushes a stand-alone punctuation token.
pub(crate) fn push_punct(out: &mut Vec<CodeToken>, c: char)
    ensures
        model(final(out)@) == model(old(out)@).push(TokenModel::Punct(c)),
{
    proof {
        lemma_model_push(out@, CodeToken::Punct(c));
    }
    out.push(CodeToken::Punct(c));
}

/// Pushes the opening bracket of a group.
pub(crate) fn push_open(out: &mut Vec<CodeToken>, d: Delimiter)
    ensures
        model(final(out)@) == model(old(out)@).push(TokenModel::Open(d)),
{
    proof {
        lemma_model_push(out@, CodeToken::Open(d));
    }
    out.push(CodeToken::Open(d));
}

/// Pushes the closing bracket of a group.
pub(crate) fn push_close(out: &mut Vec<CodeToken>, d: Delimiter)
    ensures
        model(final(out)@) == model(old(out)@).push(TokenModel::Close(d)),
{
    proof {
        lemma_model_push(out@, CodeToken::Close(d));
    }
    out.push(CodeToken::Close(d));
}

/// Moves all tokens of `other` to the end of `out`.
pub(crate) fn push_all(out: &mut Vec<CodeToken>, other: Vec<CodeToken>)
    ensures
        model(final(out)@) == model(old(out)@) + model(other@),
{
    let mut other = other;
    proof {
        lemma_model_add(out@, other@);
    }
    out.append(&mut other);
}


/// The models of a sequence of token vectors.
pub open spec fn part_models(parts: Seq<Vec<CodeToken>>) -> Seq<Seq<TokenModel>> {
    Seq::new(parts.len(), |i: int| model(parts[i]@))
}

/// A copy of one token.
pub(crate) fn copy_token(t: &CodeToken) -> (res: CodeToken)
    ensures
        res@ == t@,
{
    match t {
        CodeToken::Ident(s) => CodeToken::Ident(s.clone()),
        CodeToken::Punct(c) => CodeToken::Punct(*c),
        CodeToken::Open(d) => CodeToken::Open(*d),
        CodeToken::Close(d) => CodeToken::Close(*d),
    }
}

/// Appends copies of the tokens of `src` to `out`.
pub(crate) fn push_copies(out: &mut Vec<CodeToken>, src: &Vec<CodeToken>)
    ensures
        model(final(out)@) == model(old(out)@) + model(src@),
{
    let ghost start = model(out@);
    let mut i: usize = 0;
    while i < src.len()
        invariant
            i <= src@.len(),
            model(out@) == start + model(src@.take(i as int)),
        decreases src@.len() - i,
    {
        let t = copy_token(&src[i]);
        proof {
            lemma_model_push(out@, t);
            assert(model(src@.take(i + 1)) =~= model(src@.take(i as int)).push(src@[i as int]@));
        }
        out.push(t);
        i = i + 1;
    }
    assert(src@.take(src@.len() as int) =~= src@);
}

/// Appends the token sequences of `parts`, separated by commas.
pub(crate) fn push_comma_separated(out: &mut Vec<CodeToken>, parts: &Vec<Vec<CodeToken>>)
    ensures
        model(final(out)@) == model(old(out)@) + comma_separated(part_models(parts@)),
{
    let ghost start = model(out@);
    let mut i: usize = 0;
    while i < parts.len()
        invariant
            i <= parts@.len(),
            model(out@) == start + comma_separated(part_models(parts@).take(i as int)),
        decreases parts@.len() - i,
    {
        if i > 0 {
            push_punct(out, ',');
        }
        push_copies(out, &parts[i]);
        proof {
            let ps = part_models(parts@);
            assert(ps.take(i + 1).drop_last() =~= ps.take(i as int));
            assert(ps.take(i + 1).last() == model(parts@[i as int]@));
            if i == 0 {
                assert(comma_separated(ps.take(1)) == ps.take(1)[0]);
                assert(model(out@) =~= start + comma_separated(ps.take(i + 1)));
            } else {
                assert(model(out@) =~= start + comma_separated(ps.take(i + 1)));
            }
        }
        i = i + 1;
    }
    assert(part_models(parts@).take(parts@.len() as int) =~= part_models(parts@));
}

/// Appends the token sequences of `parts`, one after the other.
pub(crate) fn push_concatenated(out: &mut Vec<CodeToken>, parts: &Vec<Vec<CodeToken>>)
    ensures
        model(final(out)@) == model(old(out)@) + concat_parts(part_models(parts@)),
{
    let ghost start = model(out@);
    let mut i: usize = 0;
    while i < parts.len()
        invariant
            i <= parts@.len(),
            model(out@) == start + concat_parts(part_models(parts@).take(i as int)),
        decreases parts@.len() - i,
    {
        push_copies(out, &parts[i]);
        proof {
            let ps = part_models(parts@);
            assert(ps.take(i + 1).drop_last() =~= ps.take(i as int));
            assert(model(out@) =~= start + concat_parts(ps.take(i + 1)));
        }
        i = i + 1;
    }
    assert(part_models(parts@).take(parts@.len() as int) =~= part_models(parts@));
}

// ---------------------------------------------------------------------------
// Nesting of groups
// ---------------------------------------------------------------------------

/// The delimiters of the groups still open after reading `s` from the state
/// `open` (outermost first), or `None` where a closing bracket does not close
/// the innermost open group with the same kind of bracket.
pub open spec fn open_groups_after(open: Seq<Delimiter>, s: Seq<TokenModel>) -> Option<
    Seq<Delimiter>,
>
    decreases s.len(),
{
    if s.len() == 0 {
        Some(open)
    } else {
        match open_groups_after(open, s.drop_last()) {
            None => None,
            Some(st) => match s.last() {
                TokenModel::Open(d) => Some(st.push(d)),
                TokenModel::Close(d) => if st.len() > 0 && st.last() == d {
                    Some(st.drop_last())
                } else {
                    None
                },
                _ => Some(st),
            },
        }
    }
}

/// Every closing bracket closes the innermost group still open, which was
/// opened by a bracket of the same kind, and every group is closed by the end.
pub open spec fn balanced(s: Seq<TokenModel>) -> bool {
    open_groups_after(Seq::empty(), s) == Some(Seq::<Delimiter>::empty())
}

/// No brackets at all.
pub open spec fn bracket_free(s: Seq<TokenModel>) -> bool {
    forall|i: int| 0 <= i < s.len() ==> (#[trigger] s[i]) is Ident || s[i] is Punct
}

/// Reading `a + b` is reading `a`, then `b` from where `a` left off.
pub proof fn lemma_open_groups_after_add(open: Seq<Delimiter>, a: Seq<TokenModel>, b: Seq<TokenModel>)
    ensures
        open_groups_after(open, a + b) == match open_groups_after(open, a) {
            Some(st) => open_groups_after(st, b),
            None => None,
        },
    decreases b.len(),
{
    if b.len() == 0 {
        assert(a + b =~= a);
    } else {
        assert((a + b).drop_last() =~= a + b.drop_last());
        assert((a + b).last() == b.last());
        lemma_open_groups_after_add(open, a, b.drop_last());
    }
}

/// Reading from more open groups leaves those groups open below the rest.
pub proof fn lemma_open_groups_after_from(open: Seq<Delimiter>, s: Seq<TokenModel>)
    ensures
        open_groups_after(Seq::empty(), s) matches Some(r) ==> open_groups_after(open, s) == Some(
            open + r,
        ),
    decreases s.len(),
{
    if s.len() == 0 {
        assert(open + Seq::<Delimiter>::empty() =~= open);
    } else {
        lemma_open_groups_after_from(open, s.drop_last());
        if let Some(r0) = open_groups_after(Seq::empty(), s.drop_last()) {
            match s.last() {
                TokenModel::Open(d) => {
                    assert((open + r0).push(d) =~= open + r0.push(d));
                },
                TokenModel::Close(d) => {
                    if r0.len() > 0 && r0.last() == d {
                        assert((open + r0).drop_last() =~= open + r0.drop_last());
                    }
                },
                _ => {},
            }
        }
    }
}

/// A balanced sequence read from any state leaves that state as it was.
pub proof fn lemma_balanced_keeps_open_groups(open: Seq<Delimiter>, s: Seq<TokenModel>)
    requires
        balanced(s),
    ensures
        open_groups_after(open, s) == Some(open),
{
    lemma_open_groups_after_from(open, s);
    assert(open + Seq::<Delimiter>::empty() =~= open);
}

/// A sequence without brackets opens and closes nothing.
pub proof fn lemma_bracket_free_keeps_open_groups(open: Seq<Delimiter>, s: Seq<TokenModel>)
    requires
        bracket_free(s),
    ensures
        open_groups_after(open, s) == Some(open),
    decreases s.len(),
{
    if s.len() > 0 {
        assert(bracket_free(s.drop_last()));
        lemma_bracket_free_keeps_open_groups(open, s.drop_last());
        assert(s[s.len() - 1] is Ident || s[s.len() - 1] is Punct);
    }
}

/// A sequence without brackets is balanced.
pub proof fn lemma_bracket_free_balanced(s: Seq<TokenModel>)
    requires
        bracket_free(s),
    ensures
        balanced(s),
{
    lemma_bracket_free_keeps_open_groups(Seq::empty(), s);
}

/// Two balanced sequences, one after the other, are balanced.
pub proof fn lemma_balanced_add(a: Seq<TokenModel>, b: Seq<TokenModel>)
    requires
        balanced(a),
        balanced(b),
    ensures
        balanced(a + b),
{
    lemma_open_groups_after_add(Seq::empty(), a, b);
}

/// A balanced sequence in brackets of one kind is balanced.
pub proof fn lemma_balanced_group(d: Delimiter, x: Seq<TokenModel>)
    requires
        balanced(x),
    ensures
        balanced(seq![TokenModel::Open(d)] + x + seq![TokenModel::Close(d)]),
{
    let o = seq![TokenModel::Open(d)];
    let c = seq![TokenModel::Close(d)];
    let empty = Seq::<Delimiter>::empty();
    assert(o.drop_last() =~= Seq::<TokenModel>::empty());
    assert(open_groups_after(empty, o.drop_last()) == Some(empty));
    assert(open_groups_after(empty, o) == Some(empty.push(d)));
    lemma_balanced_keeps_open_groups(empty.push(d), x);
    lemma_open_groups_after_add(empty, o, x);
    assert(c.drop_last() =~= Seq::<TokenModel>::empty());
    assert(open_groups_after(empty.push(d), c.drop_last()) == Some(empty.push(d)));
    assert(empty.push(d).drop_last() =~= empty);
    assert(open_groups_after(empty.push(d), c) == Some(empty));
    lemma_open_groups_after_add(empty, o + x, c);
}

/// Balanced sequences separated by commas are balanced.
pub proof fn lemma_comma_separated_balanced(parts: Seq<Seq<TokenModel>>)
    requires
        forall|i: int| 0 <= i < parts.len() ==> balanced(#[trigger] parts[i]),
    ensures
        balanced(comma_separated(parts)),
    decreases parts.len(),
{
    if parts.len() == 0 {
        lemma_bracket_free_balanced(Seq::<TokenModel>::empty());
    } else if parts.len() == 1 {
        assert(balanced(parts[0]));
    } else {
        let init = parts.drop_last();
        assert forall|i: int| 0 <= i < init.len() implies balanced(#[trigger] init[i]) by {
            assert(init[i] == parts[i]);
        }
        lemma_comma_separated_balanced(init);
        let comma = seq![TokenModel::Punct(',')];
        lemma_bracket_free_balanced(comma);
        lemma_balanced_add(comma_separated(init), comma);
        assert(balanced(parts[parts.len() - 1]));
        lemma_balanced_add(comma_separated(init) + comma, parts.last());
    }
}

/// Balanced sequences, one after the other, are balanced.
pub proof fn lemma_concat_parts_balanced(parts: Seq<Seq<TokenModel>>)
    requires
        forall|i: int| 0 <= i < parts.len() ==> balanced(#[trigger] parts[i]),
    ensures
        balanced(concat_parts(parts)),
    decreases parts.len(),
{
    if parts.len() == 0 {
        lemma_bracket_free_balanced(Seq::<TokenModel>::empty());
    } else {
        let init = parts.drop_last();
        assert forall|i: int| 0 <= i < init.len() implies balanced(#[trigger] init[i]) by {
            assert(init[i] == parts[i]);
        }
        lemma_concat_parts_balanced(init);
        assert(balanced(parts[parts.len() - 1]));
        lemma_balanced_add(concat_parts(init), parts.last());
    }
}

// ---------------------------------------------------------------------------
// Identifiers
// ---------------------------------------------------------------------------

/// Whether `c` is one of the ASCII digits `0` to `9`.
pub open spec fn is_ascii_digit(c: char) -> bool {
    '0' <= c && c <= '9'
}

/// A name that can stand as an identifier as far as its shape goes: it is not
/// empty, and not made of ASCII digits only.
pub open spec fn ident_shape_ok(name: Seq<char>) -> bool {
    name.len() > 0 && exists|i: int| 0 <= i < name.len() && !is_ascii_digit(#[trigger] name[i])
}

/// Every identifier among `toks` has the shape of an identifier.
pub open spec fn idents_shape_ok(toks: Seq<TokenModel>) -> bool {
    forall|i: int|
        0 <= i < toks.len() ==> ((#[trigger] toks[i]) matches TokenModel::Ident(name)
            ==> ident_shape_ok(name))
}

/// Whether `name` is not empty and not made of ASCII digits only.
pub fn name_has_ident_shape(name: &str) -> (res: bool)
    ensures
        res == ident_shape_ok(name@),
{
    let len = name.unicode_len();
    let mut i: usize = 0;
    while i < len
        invariant
            i <= len,
            len == name@.len(),
            forall|j: int| 0 <= j < i ==> is_ascii_digit(#[trigger] name@[j]),
        decreases len - i,
    {
        let c = name.get_char(i);
        if !('0' <= c && c <= '9') {
            return true;
        }
        i = i + 1;
    }
    false
}

/// Whether every identifier among `toks` has the shape of an identifier.
pub fn tokens_have_ident_shape(toks: &Vec<CodeToken>) -> (res: bool)
    ensures
        res == idents_shape_ok(model(toks@)),
{
    let mut i: usize = 0;
    while i < toks.len()
        invariant
            i <= toks@.len(),
            forall|j: int|
                0 <= j < i ==> ((#[trigger] model(toks@)[j]) matches TokenModel::Ident(name)
                    ==> ident_shape_ok(name)),
        decreases toks@.len() - i,
    {
        if let CodeToken::Ident(name) = &toks[i] {
            if !name_has_ident_shape(name.as_str()) {
                assert(model(toks@)[i as int] == TokenModel::Ident(name@));
                return false;
            }
        }
        i = i + 1;
    }
    true
}

} // verus!
