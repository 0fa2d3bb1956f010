//! How the files of the models are laid out.  The numbers in them are floating
//! point; here it is decided which texts are numbers, and what each is for.

use crate::lists::{are_sources, law_picking_is_exact, lemma_picked_step, picked};
use crate::words::{begins_with, number_in, pieces, read_number, split, starts_with, views, word_list, words};
use vstd::prelude::*;

verus! {

/// A layer: as many rows of weights as it has outputs, one weight per input.
#[derive(Clone, Copy, Debug, PartialEq, Eq, Structural)]
pub struct LayerShape {
    pub inputs: usize,
    pub outputs: usize,
}

/// The shape of a model.
#[derive(Debug)]
pub struct ModelPlan {
    pub n_features: usize,
    pub hidden: Vec<LayerShape>,
    /// Weights of the output layer.
    pub last_hidden: usize,
}

/// A dimension that a word denotes.
pub open spec fn dimension() -> spec_fn(int, Seq<char>) -> Option<usize> {
    |i: int, word: Seq<char>|
        match number_in(word) {
            Some(n) => if n <= usize::MAX {
                Some(n as usize)
            } else {
                None
            },
            None => None,
        }
}

/// The dimensions in the header of a model: all words that are numbers.
pub open spec fn header_dims(header: Seq<char>) -> Seq<usize> {
    picked(word_list(header), dimension())
}

/// Reads the dimensions in the header of a model.
pub fn read_dims(header: &str) -> (r: Vec<usize>)
    ensures
        r@ == header_dims(header@),
{
    let all = words(header);
    let ghost list = word_list(header@);
    let mut out: Vec<usize> = Vec::new();
    let mut i: usize = 0;
    proof {
        assert(list.take(0) =~= Seq::empty());
        assert(views(all@).len() == all@.len());
    }
    while i < all.len()
        invariant
            i <= all@.len(),
            list == views(all@),
            list.len() == all@.len(),
            out@ == picked(list.take(i as int), dimension()),
        decreases all@.len() - i,
    {
        proof {
            lemma_picked_step(list, dimension(), i as int);
            assert(list[i as int] == all@[i as int]@);
        }
        if let Some(n) = read_number(all[i]) {
            if n <= usize::MAX as u64 {
                out.push(n as usize);
            }
        }
        i += 1;
    }
    proof {
        assert(list.take(i as int) =~= list);
    }
    out
}

/// The hidden layers of a model with the given dimensions: from each dimension
/// to the next, but for the last step, which is the output.
pub open spec fn hidden_layers(dims: Seq<usize>) -> Seq<LayerShape> {
    Seq::new(
        (dims.len() - 2) as nat,
        |i: int| LayerShape { inputs: dims[i], outputs: dims[i + 1] },
    )
}

/// Plans how a model is read.  A header needs three dimensions at least.
pub fn plan_model(header: &str) -> (r: Option<ModelPlan>)
    ensures
        r is Some <==> header_dims(header@).len() >= 3,
        r matches Some(plan) ==> {
            let dims = header_dims(header@);
            &&& plan.n_features == dims[0]
            &&& plan.hidden@ == hidden_layers(dims)
            &&& plan.last_hidden == dims[dims.len() - 2]
        },
{
    let dims = read_dims(header);
    let total: usize = dims.len();
    if total < 3 {
        return None;
    }
    let mut hidden: Vec<LayerShape> = Vec::new();
    let mut i: usize = 0;
    while i < total - 2
        invariant
            i <= total - 2,
            total == dims@.len(),
            total >= 3,
            hidden@.len() == i,
            forall|j: int|
                0 <= j < i ==> #[trigger] hidden@[j] == hidden_layers(dims@)[j],
        decreases total - 2 - i,
    {
        hidden.push(LayerShape { inputs: dims[i], outputs: dims[i + 1] });
        i += 1;
    }
    assert(hidden@ =~= hidden_layers(dims@));
    Some(ModelPlan { n_features: dims[0], hidden, last_hidden: dims[total - 2] })
}

// ---------------------------------------------------------------------------
// One value per line
// ---------------------------------------------------------------------------

/// The texts of the mean and the deviation in a line of three fields at least;
/// comments and blank lines have none.
pub open spec fn norm_texts(line: Seq<char>) -> Option<(Seq<char>, Seq<char>)> {
    let fields = pieces(line, ',');
    if begins_with(line, "#"@) || word_list(line).len() == 0 || fields.len() < 3 {
        None
    } else {
        Some((fields[1], fields[2]))
    }
}

/// Finds the mean and the deviation in a line.
pub fn norm_fields(line: &str) -> (r: Option<(&str, &str)>)
    ensures
        r is Some <==> norm_texts(line@) is Some,
        r matches Some((mean, std)) ==> norm_texts(line@) == Some((mean@, std@)),
{
    if starts_with(line, "#") {
        return None;
    }
    let all = words(line);
    proof {
        assert(views(all@).len() == all@.len());
    }
    if all.len() == 0 {
        return None;
    }
    let fields = split(line, ',');
    proof {
        assert(views(fields@).len() == fields@.len());
    }
    if fields.len() < 3 {
        return None;
    }
    proof {
        assert(views(fields@)[1] == fields@[1]@);
        assert(views(fields@)[2] == fields@[2]@);
    }
    Some((fields[1], fields[2]))
}

/// The text of the value in a line: its only word.  Comments, blank lines and
/// lines of several words hold none.
pub open spec fn value_text(line: Seq<char>) -> Option<Seq<char>> {
    if begins_with(line, "#"@) || word_list(line).len() != 1 {
        None
    } else {
        Some(word_list(line)[0])
    }
}

/// Finds the value in a line.
pub fn value_in_line(line: &str) -> (r: Option<&str>)
    ensures
        r is Some <==> value_text(line@) is Some,
        r matches Some(text) ==> value_text(line@) == Some(text@),
{
    if starts_with(line, "#") {
        return None;
    }
    let all = words(line);
    proof {
        assert(views(all@).len() == all@.len());
    }
    if all.len() != 1 {
        return None;
    }
    proof {
        assert(views(all@)[0] == all@[0]@);
    }
    Some(all[0])
}

// ---------------------------------------------------------------------------
// The window model
// ---------------------------------------------------------------------------

/// The sections of the window model, in order: for the first two layers weights,
/// biases and the four parts of the normalisation; for the third weights and
/// biases; for the output weights and its bias.
pub open spec fn window_sizes() -> Seq<usize> {
    seq![960, 64, 64, 64, 64, 64, 2048, 32, 32, 32, 32, 32, 512, 16, 16, 1]
}

/// Where a section starts: after all sections before it.
pub open spec fn section_start(sizes: Seq<usize>, k: int) -> int
    decreases k,
{
    if k <= 0 {
        0
    } else {
        section_start(sizes, k - 1) + sizes[k - 1]
    }
}

/// How many values the window model has.
pub const WINDOW_MODEL_VALUES: usize = 4033;

/// Finds where the sections of the window model start, where the file has enough
/// values.
pub fn window_sections(values: usize) -> (r: Option<Vec<usize>>)
    ensures
        r is Some <==> values >= WINDOW_MODEL_VALUES,
        r matches Some(starts) ==> {
            &&& starts@.len() == window_sizes().len()
            &&& forall|k: int|
                0 <= k < starts@.len() ==> #[trigger] starts@[k] == section_start(
                    window_sizes(),
                    k,
                )
        },
{
    if values < WINDOW_MODEL_VALUES {
        return None;
    }
    let sizes: Vec<usize> =
        vec![960, 64, 64, 64, 64, 64, 2048, 32, 32, 32, 32, 32, 512, 16, 16, 1];
    assert(sizes@ =~= window_sizes());
    let mut starts: Vec<usize> = Vec::new();
    let mut next: usize = 0;
    let mut k: usize = 0;
    while k < sizes.len()
        invariant
            k <= sizes@.len(),
            sizes@ == window_sizes(),
            sizes@.len() == 16,
            starts@.len() == k,
            next == section_start(window_sizes(), k as int),
            next <= 2048 * k,
            forall|j: int|
                0 <= j < k ==> #[trigger] starts@[j] == section_start(window_sizes(), j),
        decreases sizes@.len() - k,
    {
        starts.push(next);
        proof {
            assert(section_start(window_sizes(), k + 1) == section_start(window_sizes(), k as int)
                + window_sizes()[k as int]);
            assert(window_sizes()[k as int] <= 2048);
        }
        next = next + sizes[k];
        k += 1;
    }
    Some(starts)
}

// ---------------------------------------------------------------------------
// Laws
// ---------------------------------------------------------------------------

/// The layers of a model fit together: each takes what the one before it gives.
pub proof fn law_layers_fit_together(dims: Seq<usize>, i: int)
    requires
        0 <= i,
        i + 1 < dims.len() - 2,
    ensures
        hidden_layers(dims)[i].outputs == hidden_layers(dims)[i + 1].inputs,
{
}

/// The sections of the window model follow each other without gaps and hold all
/// its values.
pub proof fn law_sections_cover_the_model(k: int)
    requires
        0 <= k < window_sizes().len(),
    ensures
        section_start(window_sizes(), k) + window_sizes()[k] == section_start(
            window_sizes(),
            k + 1,
        ),
        section_start(window_sizes(), window_sizes().len() as int) == WINDOW_MODEL_VALUES,
{
    reveal_with_fuel(section_start, 17);
}

/// A word is a dimension exactly where it is a number that fits.
pub proof fn law_dimensions_are_numbers(word: Seq<char>, i: int)
    ensures
        number_in(word) is None ==> dimension()(i, word) is None,
        number_in(word) matches Some(n) ==> (n <= usize::MAX ==> dimension()(i, word) == Some(
            n as usize,
        )) && (n > usize::MAX ==> dimension()(i, word) is None),
{
}

/// The header of a model gives, in order, all its words that are dimensions.
pub proof fn law_header_gives_its_numbers(header: Seq<char>) -> (sources: Seq<int>)
    ensures
        are_sources(word_list(header), dimension(), header_dims(header), sources),
{
    law_picking_is_exact(word_list(header), dimension())
}

/// There is a hidden layer for each step but the last from one dimension to the
/// next, of just these sizes.
pub proof fn law_hidden_layers_go_from_dimension_to_dimension(dims: Seq<usize>, i: int)
    requires
        dims.len() >= 2,
    ensures
        hidden_layers(dims).len() == dims.len() - 2,
        0 <= i < dims.len() - 2 ==> hidden_layers(dims)[i] == (LayerShape {
            inputs: dims[i],
            outputs: dims[i + 1],
        }),
{
}

/// Mean and deviation are the second and third of at least three fields between
/// commas; comments and blank lines have none.
pub proof fn law_norms_are_second_and_third_fields(line: Seq<char>)
    ensures
        begins_with(line, "#"@) ==> norm_texts(line) is None,
        word_list(line).len() == 0 ==> norm_texts(line) is None,
        pieces(line, ',').len() < 3 ==> norm_texts(line) is None,
        !begins_with(line, "#"@) && word_list(line).len() > 0 && pieces(line, ',').len() >= 3
            ==> norm_texts(line) == Some((pieces(line, ',')[1], pieces(line, ',')[2])),
{
}

/// The value of a line is its only word; comments have none.
pub proof fn law_value_is_the_only_word(line: Seq<char>)
    ensures
        begins_with(line, "#"@) ==> value_text(line) is None,
        word_list(line).len() != 1 ==> value_text(line) is None,
        !begins_with(line, "#"@) && word_list(line).len() == 1 ==> value_text(line) == Some(
            word_list(line)[0],
        ),
{
}

/// The sizes of the window model are those of layers of 15 inputs, 64, 32 and 16
/// units and one output, with four parts of normalisation for the first two.
pub proof fn law_window_model_has_its_layers(k: int)
    ensures
        window_sizes().len() == 16,
        window_sizes()[0] == 15 * 64,
        1 <= k <= 5 ==> window_sizes()[k] == 64,
        window_sizes()[6] == 64 * 32,
        7 <= k <= 11 ==> window_sizes()[k] == 32,
        window_sizes()[12] == 32 * 16,
        window_sizes()[13] == 16,
        window_sizes()[14] == 16,
        window_sizes()[15] == 1,
        section_start(window_sizes(), 0) == 0,
        section_start(window_sizes(), 16) == 4033,
{
    reveal_with_fuel(section_start, 17);
}

} // verus!
