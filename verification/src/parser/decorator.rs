use crate::dataquality::DataQuality;
use vstd::prelude::*;
use vstd::string::*;

verus! {

/// What can be carried as the content of a `Content`.
pub trait TInput: PartialEq + Clone {

}

impl<T: PartialEq + Clone> TInput for T {

}

/// A value that was read from a stretch of an input text. `left` and
/// `right` count characters: the stretch starts at character `left`
/// and ends before character `right`.
#[derive(PartialEq, Debug, Clone)]
pub struct Content<'input, T> {
    pub content: T,
    pub input: &'input str,
    pub left: usize,
    pub right: usize,
    pub data_quality: DataQuality,
}

impl<'input, T> Content<'input, T> {
    /// Whether the stretch lies within the input.
    pub open spec fn wf(self) -> bool {
        self.left <= self.right <= self.input@.len()
    }

    /// The characters of the stretch.
    pub open spec fn span(self) -> Seq<char>
        recommends
            self.wf(),
    {
        self.input@.subrange(self.left as int, self.right as int)
    }

    /// A content that was read from the whole of `input`.
    pub fn new(content: T, input: &'input str, dq: DataQuality) -> (r: Self)
        ensures
            r.content == content,
            r.input == input,
            r.left == 0,
            r.right == input@.len(),
            r.data_quality == dq,
            r.wf(),
    {
        Content { content, input, left: 0, right: input.unicode_len(), data_quality: dq }
    }

    /// The same stretch with another content: what `mapper` makes of
    /// the content.
    pub fn map<U, M: Fn(&T) -> U>(&self, mapper: M) -> (r: Content<'input, U>)
        requires
            mapper.requires((&self.content,)),
        ensures
            mapper.ensures((&self.content,), r.content),
            r.input == self.input,
            r.left == self.left,
            r.right == self.right,
            r.data_quality == self.data_quality,
    {
        Content {
            content: mapper(&self.content),
            input: self.input,
            left: self.left,
            right: self.right,
            data_quality: self.data_quality,
        }
    }

    /// The text of the stretch.
    pub fn input_string(&self) -> (r: String)
        requires
            self.wf(),
        ensures
            r@ == self.span(),
    {
        self.input.substring_char(self.left, self.right).to_owned()
    }
}

/// The greatest `right` of the first `upto` of `items`, and 0 where
/// there is none.
pub open spec fn max_right<'a, T>(items: Seq<Content<'a, T>>, upto: nat) -> usize
    decreases upto,
{
    if upto == 0 {
        0
    } else if items[upto - 1].right > max_right(items, (upto - 1) as nat) {
        items[upto - 1].right
    } else {
        max_right(items, (upto - 1) as nat)
    }
}

/// The best data quality of the first `upto` of `items`, and
/// `NoValue` where there is none.
pub open spec fn max_quality<'a, T>(items: Seq<Content<'a, T>>, upto: nat) -> DataQuality
    decreases upto,
{
    if upto == 0 {
        DataQuality::NoValue
    } else {
        max_quality(items, (upto - 1) as nat).spec_max(items[upto - 1].data_quality)
    }
}

/// Gathers the contents of `items` into one content. Its stretch
/// starts at 0 and ends at the greatest end among the items, its
/// input is that of the last item, and its data quality is the best
/// among the items.
pub fn from_items<'a, T>(items: Vec<Content<'a, T>>) -> (r: Content<'a, Vec<T>>)
    ensures
        r.content@.len() == items@.len(),
        forall|i: int| 0 <= i < items@.len() ==> r.content@[i] == items@[i].content,
        items@.len() > 0 ==> r.input == items@[items@.len() - 1].input,
        items@.len() == 0 ==> r.input@.len() == 0,
        r.left == 0,
        r.right == max_right(items@, items@.len()),
        r.data_quality == max_quality(items@, items@.len()),
{
    let mut result: Content<'a, Vec<T>> = Content {
        content: Vec::new(),
        input: "",
        left: 0,
        right: 0,
        data_quality: DataQuality::NoValue,
    };
    proof {
        reveal_strlit("");
    }
    let mut rest = crate::vectors::reversed(items);
    let ghost n = items@.len();
    while rest.len() > 0
        invariant
            n == items@.len(),
            rest@.len() + result.content@.len() == n,
            forall|k: int| 0 <= k < rest@.len() ==> rest@[k] == items@[n - 1 - k],
            forall|i: int|
                0 <= i < result.content@.len() ==> result.content@[i] == items@[i].content,
            result.content@.len() > 0 ==> result.input == items@[result.content@.len() - 1].input,
            result.content@.len() == 0 ==> result.input@.len() == 0,
            result.left == 0,
            result.right == max_right(items@, result.content@.len()),
            result.data_quality == max_quality(items@, result.content@.len()),
        decreases rest@.len(),
    {
        match rest.pop() {
            Some(item) => {
                result.content.push(item.content);
                result.input = item.input;
                if item.right > result.right {
                    result.right = item.right;
                }
                result.data_quality = result.data_quality.max(item.data_quality);
            },
            None => {},
        }
    }
    result
}

} // verus!
