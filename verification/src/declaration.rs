//! The declaration of a generated module, read from its written form:
//!
//! ```text
//! declaration := ["pub"] "mod" name "from" path filter
//! filter      := "[" groups "]" | "{" blocks "}"
//! blocks      := block (";" block)* [";"] | nothing
//! block       := ("text" | "binary") "[" groups "]"
//! groups      := group ("," group)* [","] | nothing
//! group       := "include" "[" texts "]" "exclude" "[" texts "]"
//! texts       := text ("," text)* [","] | nothing
//! ```
//!
//! A name is a word, a path and a text are strings.

use vstd::prelude::*;
use crate::config::{BlockSpec, Config, FilterSpec, GroupSpec};
use crate::filter::ContentKind;
use crate::syntax::{token_views, tokenize, tokens_of, SyntaxError, Token, TokenModel};
use crate::text::{str_eq, texts};

verus! {

/// What a `GroupSpec` stands for.
pub struct GroupModel {
    pub includes: Seq<Seq<char>>,
    pub excludes: Seq<Seq<char>>,
}

/// What a `BlockSpec` stands for.
pub struct BlockModel {
    pub kind: ContentKind,
    pub groups: Seq<GroupModel>,
}

/// What a `FilterSpec` stands for.
pub enum FilterModel {
    Flat(Seq<GroupModel>),
    Tagged(Seq<BlockModel>),
}

/// What a `Declaration` stands for.
pub struct DeclarationModel {
    pub public: bool,
    pub name: Seq<char>,
    pub path: Seq<char>,
    pub filter: FilterModel,
}

/// What a group stands for.
pub open spec fn group_model(group: GroupSpec) -> GroupModel {
    GroupModel { includes: texts(group.includes@), excludes: texts(group.excludes@) }
}

/// What a list of groups stands for.
pub open spec fn group_models(groups: Seq<GroupSpec>) -> Seq<GroupModel> {
    Seq::new(groups.len(), |i: int| group_model(groups[i]))
}

/// What a block stands for.
pub open spec fn block_model(block: BlockSpec) -> BlockModel {
    BlockModel { kind: block.kind, groups: group_models(block.groups@) }
}

/// What a list of blocks stands for.
pub open spec fn block_models(blocks: Seq<BlockSpec>) -> Seq<BlockModel> {
    Seq::new(blocks.len(), |i: int| block_model(blocks[i]))
}

/// What a filter stands for.
pub open spec fn filter_model(filter: FilterSpec) -> FilterModel {
    match filter {
        FilterSpec::Flat(groups) => FilterModel::Flat(group_models(groups@)),
        FilterSpec::Tagged(blocks) => FilterModel::Tagged(block_models(blocks@)),
    }
}

/// A declaration: whether the module is public, what it is called, the
/// path of the directory it is made from, and the filter.
#[derive(Debug, Clone, PartialEq, Eq)]
pub struct Declaration {
    pub public: bool,
    pub path: String,
    pub config: Config,
}

impl View for Declaration {
    type V = DeclarationModel;

    open spec fn view(&self) -> DeclarationModel {
        DeclarationModel {
            public: self.public,
            name: self.config.module_identifier@,
            path: self.path@,
            filter: filter_model(self.config.filter_spec),
        }
    }
}

/// Whether the token at place `i` is the given bracket, comma or semicolon.
pub open spec fn is_punct_at(t: Seq<TokenModel>, i: int, c: char) -> bool {
    0 <= i < t.len() && t[i] == TokenModel::Punct(c)
}

/// Whether the token at place `i` is the given word.
pub open spec fn is_word_at(t: Seq<TokenModel>, i: int, word: Seq<char>) -> bool {
    0 <= i < t.len() && t[i] == TokenModel::Word(word)
}

/// The texts from place `i` up to the closing bracket, and the place behind it.
pub open spec fn texts_from(t: Seq<TokenModel>, i: int) -> Option<(Seq<Seq<char>>, int)>
    decreases t.len() - i,
{
    if is_punct_at(t, i, ']') {
        Some((Seq::empty(), i + 1))
    } else if 0 <= i < t.len() && t[i] is Text {
        if is_punct_at(t, i + 1, ',') {
            match texts_from(t, i + 2) {
                Some((rest, end)) => Some((seq![t[i]->Text_0] + rest, end)),
                None => None,
            }
        } else if is_punct_at(t, i + 1, ']') {
            Some((seq![t[i]->Text_0], i + 2))
        } else {
            None
        }
    } else {
        None
    }
}

/// The list of texts in brackets that starts at place `i`.
pub open spec fn text_list(t: Seq<TokenModel>, i: int) -> Option<(Seq<Seq<char>>, int)> {
    if is_punct_at(t, i, '[') {
        texts_from(t, i + 1)
    } else {
        None
    }
}

/// The group that starts at place `i`.
pub open spec fn group_at(t: Seq<TokenModel>, i: int) -> Option<(GroupModel, int)> {
    if is_word_at(t, i, "include"@) {
        match text_list(t, i + 1) {
            Some((includes, j)) => if is_word_at(t, j, "exclude"@) {
                match text_list(t, j + 1) {
                    Some((excludes, end)) => Some((GroupModel { includes, excludes }, end)),
                    None => None,
                }
            } else {
                None
            },
            None => None,
        }
    } else {
        None
    }
}

/// The groups from place `i` up to the closing bracket.
pub open spec fn groups_from(t: Seq<TokenModel>, i: int) -> Option<(Seq<GroupModel>, int)>
    decreases t.len() - i,
{
    if is_punct_at(t, i, ']') {
        Some((Seq::empty(), i + 1))
    } else {
        match group_at(t, i) {
            Some((group, j)) => if i < j && is_punct_at(t, j, ',') {
                match groups_from(t, j + 1) {
                    Some((rest, end)) => Some((seq![group] + rest, end)),
                    None => None,
                }
            } else if is_punct_at(t, j, ']') {
                Some((seq![group], j + 1))
            } else {
                None
            },
            None => None,
        }
    }
}

/// The list of groups in brackets that starts at place `i`.
pub open spec fn group_list(t: Seq<TokenModel>, i: int) -> Option<(Seq<GroupModel>, int)> {
    if is_punct_at(t, i, '[') {
        groups_from(t, i + 1)
    } else {
        None
    }
}

/// The block that starts at place `i`.
pub open spec fn block_at(t: Seq<TokenModel>, i: int) -> Option<(BlockModel, int)> {
    if is_word_at(t, i, "text"@) {
        match group_list(t, i + 1) {
            Some((groups, end)) => Some((BlockModel { kind: ContentKind::Text, groups }, end)),
            None => None,
        }
    } else if is_word_at(t, i, "binary"@) {
        match group_list(t, i + 1) {
            Some((groups, end)) => Some((BlockModel { kind: ContentKind::Binary, groups }, end)),
            None => None,
        }
    } else {
        None
    }
}

/// The blocks from place `i` up to the closing brace.
pub open spec fn blocks_from(t: Seq<TokenModel>, i: int) -> Option<(Seq<BlockModel>, int)>
    decreases t.len() - i,
{
    if is_punct_at(t, i, '}') {
        Some((Seq::empty(), i + 1))
    } else {
        match block_at(t, i) {
            Some((block, j)) => if i < j && is_punct_at(t, j, ';') {
                match blocks_from(t, j + 1) {
                    Some((rest, end)) => Some((seq![block] + rest, end)),
                    None => None,
                }
            } else if is_punct_at(t, j, '}') {
                Some((seq![block], j + 1))
            } else {
                None
            },
            None => None,
        }
    }
}

/// The filter that starts at place `i`, in either shape.
pub open spec fn filter_at(t: Seq<TokenModel>, i: int) -> Option<(FilterModel, int)> {
    if is_punct_at(t, i, '{') {
        match blocks_from(t, i + 1) {
            Some((blocks, end)) => Some((FilterModel::Tagged(blocks), end)),
            None => None,
        }
    } else {
        match group_list(t, i) {
            Some((groups, end)) => Some((FilterModel::Flat(groups), end)),
            None => None,
        }
    }
}

/// The declaration that the tokens spell out, if they spell out one and
/// nothing else.
pub open spec fn declaration_of(t: Seq<TokenModel>) -> Option<DeclarationModel> {
    let public = is_word_at(t, 0, "pub"@);
    let i: int = if public {
        1
    } else {
        0
    };
    if is_word_at(t, i, "mod"@) && i + 3 < t.len() && t[i + 1] is Word && is_word_at(
        t,
        i + 2,
        "from"@,
    ) && t[i + 3] is Text {
        match filter_at(t, i + 4) {
            Some((filter, end)) => if end == t.len() {
                Some(
                    DeclarationModel {
                        public,
                        name: t[i + 1]->Word_0,
                        path: t[i + 3]->Text_0,
                        filter,
                    },
                )
            } else {
                None
            },
            None => None,
        }
    } else {
        None
    }
}

/// The declaration that the written form spells out.
pub open spec fn declared(text: Seq<char>) -> Option<DeclarationModel> {
    match tokens_of(text) {
        Some(tokens) => declaration_of(tokens),
        None => None,
    }
}

fn punct_at(t: &Vec<Token>, i: usize, c: char) -> (b: bool)
    ensures
        b == is_punct_at(token_views(t@), i as int, c),
{
    if i < t.len() {
        match &t[i] {
            Token::Punct(p) => *p == c,
            _ => false,
        }
    } else {
        false
    }
}

fn word_at(t: &Vec<Token>, i: usize, word: &str) -> (b: bool)
    ensures
        b == is_word_at(token_views(t@), i as int, word@),
{
    if i < t.len() {
        match &t[i] {
            Token::Word(w) => str_eq(w.as_str(), word),
            _ => false,
        }
    } else {
        false
    }
}

/// Reads the list of texts in brackets that starts at place `start`. An
/// error holds the place of the token that does not fit.
fn read_texts(t: &Vec<Token>, start: usize) -> (r: Result<(Vec<String>, usize), usize>)
    ensures
        match r {
            Ok((list, end)) => text_list(token_views(t@), start as int) == Some(
                (texts(list@), end as int),
            ) && start < end <= t@.len(),
            Err(_) => text_list(token_views(t@), start as int) is None,
        },
{
    let ghost tv = token_views(t@);
    assert(tv.len() == t@.len());
    if start >= t.len() {
        return Err(start);
    }
    if !punct_at(t, start, '[') {
        return Err(start);
    }
    let mut list: Vec<String> = Vec::new();
    let mut i: usize = start + 1;
    assert(texts(list@) =~= Seq::empty());
    while i < t.len()
        invariant
            start < i <= t@.len(),
            tv == token_views(t@),
            is_punct_at(tv, start as int, '['),
            texts_from(tv, start + 1) == (match texts_from(tv, i as int) {
                Some((rest, end)) => Some((texts(list@) + rest, end)),
                None => None,
            }),
        decreases t@.len() - i,
    {
        let ghost before = texts(list@);
        if punct_at(t, i, ']') {
            assert(before + Seq::<Seq<char>>::empty() =~= before);
            return Ok((list, i + 1));
        }
        match &t[i] {
            Token::Text(x) => {
                assert(tv[i as int] == TokenModel::Text(x@));
                if punct_at(t, i + 1, ',') {
                    list.push(x.clone());
                    proof {
                        assert(texts(list@) =~= before.push(x@));
                        match texts_from(tv, i + 2) {
                            Some((rest, end)) => {
                                assert(before + (seq![x@] + rest) =~= before.push(x@) + rest);
                            },
                            None => {},
                        }
                    }
                    i += 2;
                } else if punct_at(t, i + 1, ']') {
                    list.push(x.clone());
                    assert(texts(list@) =~= before + seq![x@]);
                    return Ok((list, i + 2));
                } else {
                    return Err(i + 1);
                }
            },
            _ => {
                assert(!(tv[i as int] is Text));
                return Err(i);
            },
        }
    }
    Err(i)
}

/// Reads the group that starts at place `start`.
fn read_group(t: &Vec<Token>, start: usize) -> (r: Result<(GroupSpec, usize), usize>)
    ensures
        match r {
            Ok((group, end)) => group_at(token_views(t@), start as int) == Some(
                (group_model(group), end as int),
            ) && start < end <= t@.len(),
            Err(_) => group_at(token_views(t@), start as int) is None,
        },
{
    assert(token_views(t@).len() == t@.len());
    if start >= t.len() {
        return Err(start);
    }
    if !word_at(t, start, "include") {
        return Err(start);
    }
    let (includes, j) = match read_texts(t, start + 1) {
        Ok(found) => found,
        Err(at) => {
            return Err(at);
        },
    };
    if !word_at(t, j, "exclude") {
        return Err(j);
    }
    let (excludes, end) = match read_texts(t, j + 1) {
        Ok(found) => found,
        Err(at) => {
            return Err(at);
        },
    };
    Ok((GroupSpec { includes, excludes }, end))
}

/// Reads the list of groups in brackets that starts at place `start`.
fn read_groups(t: &Vec<Token>, start: usize) -> (r: Result<(Vec<GroupSpec>, usize), usize>)
    ensures
        match r {
            Ok((list, end)) => group_list(token_views(t@), start as int) == Some(
                (group_models(list@), end as int),
            ) && start < end <= t@.len(),
            Err(_) => group_list(token_views(t@), start as int) is None,
        },
{
    let ghost tv = token_views(t@);
    assert(tv.len() == t@.len());
    if start >= t.len() {
        return Err(start);
    }
    if !punct_at(t, start, '[') {
        return Err(start);
    }
    let mut list: Vec<GroupSpec> = Vec::new();
    let mut i: usize = start + 1;
    assert(group_models(list@) =~= Seq::empty());
    while i < t.len()
        invariant
            start < i <= t@.len(),
            tv == token_views(t@),
            is_punct_at(tv, start as int, '['),
            groups_from(tv, start + 1) == (match groups_from(tv, i as int) {
                Some((rest, end)) => Some((group_models(list@) + rest, end)),
                None => None,
            }),
        decreases t@.len() - i,
    {
        let ghost before = group_models(list@);
        if punct_at(t, i, ']') {
            assert(before + Seq::<GroupModel>::empty() =~= before);
            return Ok((list, i + 1));
        }
        match read_group(t, i) {
            Err(at) => {
                return Err(at);
            },
            Ok((group, j)) => {
                let ghost g = group_model(group);
                if punct_at(t, j, ',') {
                    list.push(group);
                    proof {
                        assert(group_models(list@) =~= before.push(g));
                        match groups_from(tv, j + 1) {
                            Some((rest, end)) => {
                                assert(before + (seq![g] + rest) =~= before.push(g) + rest);
                            },
                            None => {},
                        }
                    }
                    i = j + 1;
                } else if punct_at(t, j, ']') {
                    list.push(group);
                    assert(group_models(list@) =~= before + seq![g]);
                    return Ok((list, j + 1));
                } else {
                    return Err(j);
                }
            },
        }
    }
    Err(i)
}

/// Reads the block that starts at place `start`.
fn read_block(t: &Vec<Token>, start: usize) -> (r: Result<(BlockSpec, usize), usize>)
    ensures
        match r {
            Ok((block, end)) => block_at(token_views(t@), start as int) == Some(
                (block_model(block), end as int),
            ) && start < end <= t@.len(),
            Err(_) => block_at(token_views(t@), start as int) is None,
        },
{
    assert(token_views(t@).len() == t@.len());
    if start >= t.len() {
        return Err(start);
    }
    let kind = if word_at(t, start, "text") {
        ContentKind::Text
    } else if word_at(t, start, "binary") {
        ContentKind::Binary
    } else {
        return Err(start);
    };
    proof {
        reveal_strlit("text");
        reveal_strlit("binary");
        assert("text"@ != "binary"@) by {
            assert("text"@.len() != "binary"@.len());
        }
    }
    match read_groups(t, start + 1) {
        Ok((groups, end)) => Ok((BlockSpec { kind, groups }, end)),
        Err(at) => Err(at),
    }
}

/// Reads the blocks from place `start` up to the closing brace.
fn read_blocks(t: &Vec<Token>, start: usize) -> (r: Result<(Vec<BlockSpec>, usize), usize>)
    requires
        start <= t@.len(),
    ensures
        match r {
            Ok((list, end)) => blocks_from(token_views(t@), start as int) == Some(
                (block_models(list@), end as int),
            ) && start < end <= t@.len(),
            Err(_) => blocks_from(token_views(t@), start as int) is None,
        },
{
    let ghost tv = token_views(t@);
    let mut list: Vec<BlockSpec> = Vec::new();
    let mut i: usize = start;
    assert(block_models(list@) =~= Seq::empty());
    while i < t.len()
        invariant
            start <= i <= t@.len(),
            tv == token_views(t@),
            blocks_from(tv, start as int) == (match blocks_from(tv, i as int) {
                Some((rest, end)) => Some((block_models(list@) + rest, end)),
                None => None,
            }),
        decreases t@.len() - i,
    {
        let ghost before = block_models(list@);
        if punct_at(t, i, '}') {
            assert(before + Seq::<BlockModel>::empty() =~= before);
            return Ok((list, i + 1));
        }
        match read_block(t, i) {
            Err(at) => {
                return Err(at);
            },
            Ok((block, j)) => {
                let ghost b = block_model(block);
                if punct_at(t, j, ';') {
                    list.push(block);
                    proof {
                        assert(block_models(list@) =~= before.push(b));
                        match blocks_from(tv, j + 1) {
                            Some((rest, end)) => {
                                assert(before + (seq![b] + rest) =~= before.push(b) + rest);
                            },
                            None => {},
                        }
                    }
                    i = j + 1;
                } else if punct_at(t, j, '}') {
                    list.push(block);
                    assert(block_models(list@) =~= before + seq![b]);
                    return Ok((list, j + 1));
                } else {
                    return Err(j);
                }
            },
        }
    }
    Err(i)
}

/// Reads the filter that starts at place `start`, in either shape.
fn read_filter(t: &Vec<Token>, start: usize) -> (r: Result<(FilterSpec, usize), usize>)
    ensures
        match r {
            Ok((filter, end)) => filter_at(token_views(t@), start as int) == Some(
                (filter_model(filter), end as int),
            ) && start < end <= t@.len(),
            Err(_) => filter_at(token_views(t@), start as int) is None,
        },
{
    assert(token_views(t@).len() == t@.len());
    if start >= t.len() {
        return Err(start);
    }
    if punct_at(t, start, '{') {
        match read_blocks(t, start + 1) {
            Ok((blocks, end)) => Ok((FilterSpec::Tagged(blocks), end)),
            Err(at) => Err(at),
        }
    } else {
        match read_groups(t, start) {
            Ok((groups, end)) => Ok((FilterSpec::Flat(groups), end)),
            Err(at) => Err(at),
        }
    }
}

impl Declaration {
    /// Reads the declaration that the tokens spell out. They have to
    /// spell out one declaration and nothing else.
    pub fn from_tokens(t: &Vec<Token>) -> (r: Result<Declaration, SyntaxError>)
        ensures
            match r {
                Ok(d) => declaration_of(token_views(t@)) == Some(d@),
                Err(e) => e is UnexpectedToken && declaration_of(token_views(t@)) is None,
            },
    {
        let ghost tv = token_views(t@);
        assert(tv.len() == t@.len());
        let public = word_at(t, 0, "pub");
        let i: usize = if public {
            1
        } else {
            0
        };
        if !word_at(t, i, "mod") {
            return Err(SyntaxError::UnexpectedToken { at: i });
        }
        if t.len() - i <= 3 {
            return Err(SyntaxError::UnexpectedToken { at: t.len() });
        }
        let name = match &t[i + 1] {
            Token::Word(name) => name.clone(),
            _ => {
                assert(!(tv[i + 1] is Word));
                return Err(SyntaxError::UnexpectedToken { at: i + 1 });
            },
        };
        if !word_at(t, i + 2, "from") {
            return Err(SyntaxError::UnexpectedToken { at: i + 2 });
        }
        let path = match &t[i + 3] {
            Token::Text(path) => path.clone(),
            _ => {
                assert(!(tv[i + 3] is Text));
                return Err(SyntaxError::UnexpectedToken { at: i + 3 });
            },
        };
        assert(tv[i + 1] == TokenModel::Word(name@));
        assert(tv[i + 3] == TokenModel::Text(path@));
        match read_filter(t, i + 4) {
            Err(at) => Err(SyntaxError::UnexpectedToken { at }),
            Ok((filter_spec, end)) => {
                if end == t.len() {
                    Ok(
                        Declaration {
                            public,
                            path,
                            config: Config { module_identifier: name, filter_spec },
                        },
                    )
                } else {
                    Err(SyntaxError::UnexpectedToken { at: end })
                }
            },
        }
    }

    /// Reads a declaration from its written form.
    pub fn parse(text: &str) -> (r: Result<Declaration, SyntaxError>)
        ensures
            match r {
                Ok(d) => declared(text@) == Some(d@),
                Err(SyntaxError::BadCharacter { .. }) => tokens_of(text@) is None,
                Err(SyntaxError::UnexpectedToken { .. }) => tokens_of(text@) is Some && declared(
                    text@,
                ) is None,
            },
    {
        match tokenize(text) {
            Err(e) => Err(e),
            Ok(tokens) => Declaration::from_tokens(&tokens),
        }
    }
}

} // verus!
