use sonny::chain::{ChainLinks, ChainName, Expression, Note, Operand, Operation, Period};
use sonny::error::ErrorSpec;
use sonny::registry::Builder;
use sonny::token::CodeLocation;
use sonny::value::{first_scalar, Variable};

fn loc() -> CodeLocation {
    CodeLocation { line: 1, column: 1, file: String::from("test.sny") }
}

fn n(x: f64) -> Variable {
    Variable::Number(x.to_bits())
}

fn var_link(x: f64) -> Expression {
    Expression(Operation::Operand(Operand::Var(n(x))))
}

fn note(pitch: f64, start: f64, end: f64) -> Note {
    Note { pitches: vec![pitch.to_bits()], period: Period { start: start.to_bits(), end: end.to_bits() } }
}

fn scalar(v: &Variable) -> f64 {
    f64::from_bits(first_scalar(v))
}

const FUEL: usize = 64;

#[test]
fn chain_names_to_string() {
    assert_eq!(ChainName::Scoped(String::from("a::b")).to_string(), "a::b");
    assert_eq!(ChainName::Anonymous(5).to_string(), "anon0005");
    assert_eq!(ChainName::Anonymous(987).to_string(), "anon0987");
    assert_eq!(ChainName::Anonymous(12345).to_string(), "anon12345");
    assert_eq!(ChainName::Anonymous(0).to_string(), "anon0000");
}

#[test]
fn scoped_declaration_and_lookup() {
    let mut b = Builder::new();
    let outer = b.new_chain(Some(String::from("outer")), loc()).ok().expect("declared");
    let inner = b.new_chain(Some(String::from("inner")), loc()).ok().expect("declared");
    match &inner {
        ChainName::Scoped(s) => assert_eq!(s, "outer::inner"),
        _ => panic!("expected a scoped name"),
    }
    b.new_expression(var_link(1.0));
    assert!(b.finalize_chain().is_ok());
    b.new_expression(var_link(2.0));
    assert!(b.finalize_chain().is_ok());
    assert!(b.find_chain(&outer).is_some());
    assert!(b.find_chain(&ChainName::Scoped(String::from("outer::inner"))).is_some());
}

#[test]
fn redeclaration_is_refused() {
    let mut b = Builder::new();
    b.new_chain(Some(String::from("a")), loc()).ok().expect("declared");
    b.new_expression(var_link(1.0));
    assert!(b.finalize_chain().is_ok());
    match b.new_chain(Some(String::from("a")), loc()) {
        Err(e) => match e.spec {
            ErrorSpec::ChainRedeclaration(_) => {},
            _ => panic!("expected a redeclaration error"),
        },
        Ok(_) => panic!("expected an error"),
    }
}

#[test]
fn named_chain_inside_anonymous_is_refused() {
    let mut b = Builder::new();
    b.new_chain(None, loc()).ok().expect("declared");
    match b.new_chain(Some(String::from("x")), loc()) {
        Err(e) => match e.spec {
            ErrorSpec::NamedChainInAnonChain(_) => {},
            _ => panic!("expected the anonymous-nesting error"),
        },
        Ok(_) => panic!("expected an error"),
    }
}

#[test]
fn use_import_resolves_bare_name() {
    let mut b = Builder::new();
    b.new_chain(Some(String::from("m")), loc()).ok().expect("declared");
    b.new_chain(Some(String::from("g")), loc()).ok().expect("declared");
    b.new_expression(var_link(4.0));
    assert!(b.finalize_chain().is_ok());
    b.new_expression(var_link(5.0));
    assert!(b.finalize_chain().is_ok());
    assert!(b.find_chain(&ChainName::Scoped(String::from("g"))).is_none());
    b.import_scope(String::from("m"), true);
    assert!(b.find_chain(&ChainName::Scoped(String::from("g"))).is_some());
}

fn notes_chain(b: &mut Builder, name: &str) -> ChainName {
    let cn = b.new_chain(Some(String::from(name)), loc()).ok().expect("declared");
    b.new_expression(Expression(Operation::Operand(Operand::Notes(vec![
        note(261.63, 0.0, 1.0),
        note(293.66, 0.0, 1.0),
    ]))));
    b.play_chain();
    assert!(b.finalize_chain().is_ok());
    cn
}

#[test]
fn finalize_converts_to_timeline() {
    let mut b = Builder::new();
    let cn = notes_chain(&mut b, "notes");
    let chain = b.find_chain(&cn).expect("resolved");
    match &chain.links {
        ChainLinks::OnlyNotes(entries, period) => {
            assert_eq!(entries.len(), 1);
            assert_eq!(f64::from_bits(period.start), 0.0);
            assert_eq!(f64::from_bits(period.end), 2.0);
        },
        _ => panic!("expected a note timeline"),
    }
}

#[test]
fn find_note_selects_by_time() {
    let mut b = Builder::new();
    let cn = notes_chain(&mut b, "notes");
    let links = &b.find_chain(&cn).expect("resolved").links;
    let at = |t: f64| links.find_note(t.to_bits(), 0.0f64.to_bits(), &b, FUEL);
    match at(1.5) {
        Ok(Some(found)) => {
            assert_eq!(f64::from_bits(found.pitches[0]), 293.66);
            assert_eq!(f64::from_bits(found.period.start), 1.0);
            assert_eq!(f64::from_bits(found.period.end), 2.0);
        },
        _ => panic!("expected the second note"),
    }
    match at(0.5) {
        Ok(Some(found)) => assert_eq!(f64::from_bits(found.pitches[0]), 261.63),
        _ => panic!("expected the first note"),
    }
    assert!(matches!(at(2.0), Ok(None)));
    assert!(matches!(at(-0.5), Ok(None)));
    assert!(matches!(at(1.0), Ok(Some(_))));
}

fn eval(b: &Builder, cn: &ChainName, args: &Vec<Vec<Variable>>, n_sm: usize) -> Vec<Variable> {
    match b.evaluate_chain(cn, args, 0.0f64.to_bits(), n_sm, 0, 8.0f64.to_bits(), FUEL) {
        Ok(col) => col,
        Err(_) => panic!("evaluation failed"),
    }
}

#[test]
fn backlink_takes_previous_link() {
    let mut b = Builder::new();
    let cn = b.new_chain(Some(String::from("c")), loc()).ok().expect("declared");
    b.new_expression(var_link(5.0));
    b.new_expression(Expression(Operation::Operand(Operand::BackLink(1))));
    assert!(b.finalize_chain().is_ok());
    let col = eval(&b, &cn, &Vec::new(), 4);
    assert_eq!(col.len(), 4);
    for v in &col {
        assert_eq!(scalar(v), 5.0);
    }
}

#[test]
fn backlink_falls_through_to_arguments() {
    let mut b = Builder::new();
    let cn = b.new_chain(Some(String::from("c")), loc()).ok().expect("declared");
    b.new_expression(var_link(3.0));
    b.new_expression(Expression(Operation::Operand(Operand::BackLink(2))));
    assert!(b.finalize_chain().is_ok());
    let args = vec![vec![n(7.0), n(7.0), n(7.0), n(7.0)]];
    let col = eval(&b, &cn, &args, 4);
    for v in &col {
        assert_eq!(scalar(v), 7.0);
    }
}

#[test]
fn unsatisfied_backlink_is_reported() {
    let mut b = Builder::new();
    let cn = b.new_chain(Some(String::from("c")), loc()).ok().expect("declared");
    b.new_expression(Expression(Operation::Operand(Operand::BackLink(3))));
    assert!(b.finalize_chain().is_ok());
    match b.evaluate_chain(&cn, &Vec::new(), 0, 4, 0, 8.0f64.to_bits(), FUEL) {
        Err(e) => match e.spec {
            ErrorSpec::UnstatisfiedBacklink(_, want, got) => {
                assert_eq!(want, 3);
                assert_eq!(got, 0);
            },
            _ => panic!("expected the backlink error"),
        },
        Ok(_) => panic!("expected an error"),
    }
}

#[test]
fn chain_recursion_is_guarded() {
    let mut b = Builder::new();
    let cn = b.new_chain(Some(String::from("loopy")), loc()).ok().expect("declared");
    b.new_expression(Expression(Operation::Add(
        Operand::Id(ChainName::Scoped(String::from("loopy"))),
        Operand::Var(n(0.0)),
    )));
    assert!(b.finalize_chain().is_ok());
    match b.evaluate_chain(&cn, &Vec::new(), 0, 2, 0, 8.0f64.to_bits(), 8) {
        Err(e) => assert!(matches!(e.spec, ErrorSpec::RecursionDepthExceeded(_))),
        Ok(_) => panic!("expected the recursion guard"),
    }
}

#[test]
fn arithmetic_over_time_operand() {
    let mut b = Builder::new();
    let cn = b.new_chain(Some(String::from("c")), loc()).ok().expect("declared");
    b.new_expression(Expression(Operation::Multiply(Operand::Time, Operand::Var(n(2.0)))));
    assert!(b.finalize_chain().is_ok());
    let col = eval(&b, &cn, &Vec::new(), 4);
    let got: Vec<f64> = col.iter().map(scalar).collect();
    assert_eq!(got, vec![0.0, 0.25, 0.5, 0.75]);
}

fn render(b: &Builder, cn: &ChainName, rate: f64, ws: usize, bs: usize, end: f64) -> Vec<f64> {
    match b.render(cn, rate.to_bits(), ws, bs, 0.0f64.to_bits(), end.to_bits(), FUEL) {
        Ok(song) => song.into_iter().map(f64::from_bits).collect(),
        Err(_) => panic!("render failed"),
    }
}

#[test]
fn constant_source_fills_the_buffer() {
    let mut b = Builder::new();
    let cn = b.new_chain(Some(String::from("a")), loc()).ok().expect("declared");
    b.new_expression(var_link(1.0));
    b.play_chain();
    assert!(b.finalize_chain().is_ok());
    let song = render(&b, &cn, 8.0, 4000, 10, 1.0);
    assert_eq!(song.len(), 8);
    assert!(song.iter().all(|s| *s == 1.0));
}

#[test]
fn time_source_counts_quarters() {
    let mut b = Builder::new();
    let cn = b.new_chain(Some(String::from("a")), loc()).ok().expect("declared");
    b.new_expression(Expression(Operation::Operand(Operand::Time)));
    b.play_chain();
    assert!(b.finalize_chain().is_ok());
    let song = render(&b, &cn, 4.0, 4000, 10, 1.0);
    assert_eq!(song, vec![0.0, 0.25, 0.5, 0.75]);
}

#[test]
fn note_timeline_renders_both_segments() {
    let mut b = Builder::new();
    let cn = notes_chain(&mut b, "notes");
    let song = render(&b, &cn, 4.0, 4000, 10, 2.0);
    assert_eq!(song.len(), 8);
    assert_eq!(song[2], 261.63);
    assert_eq!(song[6], 293.66);
}

#[test]
fn window_split_matches_single_pass() {
    let mut b = Builder::new();
    let cn = notes_chain(&mut b, "notes");
    let split = render(&b, &cn, 4.0, 3, 2, 2.0);
    let whole = render(&b, &cn, 4.0, 4000, 0, 2.0);
    assert_eq!(split, whole);
    let mut b2 = Builder::new();
    let c2 = b2.new_chain(Some(String::from("a")), loc()).ok().expect("declared");
    b2.new_expression(var_link(0.5));
    b2.play_chain();
    assert!(b2.finalize_chain().is_ok());
    let split2 = render(&b2, &c2, 8.0, 3, 1, 1.0);
    let whole2 = render(&b2, &c2, 8.0, 4000, 0, 1.0);
    assert_eq!(split2, whole2);
}

#[test]
fn fft_of_a_constant_peaks_at_zero() {
    let mut b = Builder::new();
    let cn = b.new_chain(Some(String::from("c")), loc()).ok().expect("declared");
    b.new_expression(Expression(Operation::FFT(Operand::Var(n(1.0)))));
    assert!(b.finalize_chain().is_ok());
    let col = eval(&b, &cn, &Vec::new(), 4);
    match &col[0] {
        Variable::Array(parts) => {
            match (&parts[0], &parts[1]) {
                (Variable::Array(freqs), Variable::Array(mags)) => {
                    assert_eq!(freqs.len(), 2);
                    assert_eq!(scalar(&freqs[0]), 0.0);
                    assert_eq!(scalar(&freqs[1]), 2.0);
                    assert_eq!(scalar(&mags[0]), 1.0);
                    assert!(scalar(&mags[1]).abs() < 1.0e-10);
                },
                _ => panic!("expected frequency and magnitude arrays"),
            }
        },
        _ => panic!("expected the transform pair"),
    }
}

#[test]
fn properties_of_note_chain() {
    let mut b = Builder::new();
    notes_chain(&mut b, "notes");
    let cn = b.new_chain(Some(String::from("p")), loc()).ok().expect("declared");
    b.new_expression(Expression(Operation::Operand(Operand::Properties(
        ChainName::Scoped(String::from("notes")),
        sonny::chain::Property::Duration,
    ))));
    assert!(b.finalize_chain().is_ok());
    let col = match b.evaluate_chain(&cn, &Vec::new(), 1.5f64.to_bits(), 2, 0, 8.0f64.to_bits(), FUEL) {
        Ok(col) => col,
        Err(_) => panic!("evaluation failed"),
    };
    assert_eq!(scalar(&col[0]), 1.0);
}

#[test]
fn array_operand_collates_per_sample() {
    let mut b = Builder::new();
    let cn = b.new_chain(Some(String::from("c")), loc()).ok().expect("declared");
    b.new_expression(Expression(Operation::Operand(Operand::Array(vec![
        Expression(Operation::Operand(Operand::Time)),
        Expression(Operation::Operand(Operand::Var(n(9.0)))),
    ]))));
    assert!(b.finalize_chain().is_ok());
    let col = eval(&b, &cn, &Vec::new(), 2);
    match &col[1] {
        Variable::Array(items) => {
            assert_eq!(items.len(), 2);
            assert_eq!(scalar(&items[0]), 0.125);
            assert_eq!(scalar(&items[1]), 9.0);
        },
        _ => panic!("expected a collated array"),
    }
}

#[test]
fn window_operator_bundles_the_column() {
    let mut b = Builder::new();
    let cn = b.new_chain(Some(String::from("c")), loc()).ok().expect("declared");
    b.new_expression(Expression(Operation::Window(Operand::Time)));
    assert!(b.finalize_chain().is_ok());
    let col = eval(&b, &cn, &Vec::new(), 3);
    match &col[0] {
        Variable::Array(items) => {
            assert_eq!(items.len(), 3);
            assert_eq!(scalar(&items[2]), 0.25);
        },
        _ => panic!("expected the whole window"),
    }
}

#[test]
fn out_of_range_index_is_reported() {
    let mut b = Builder::new();
    let cn = b.new_chain(Some(String::from("c")), loc()).ok().expect("declared");
    b.new_expression(Expression(Operation::Index(
        Operand::Expression(Box::new(Expression(Operation::Operand(Operand::Array(vec![
            Expression(Operation::Operand(Operand::Var(n(1.0)))),
        ]))))),
        Operand::Var(n(5.0)),
    )));
    assert!(b.finalize_chain().is_ok());
    match b.evaluate_chain(&cn, &Vec::new(), 0, 2, 0, 8.0f64.to_bits(), FUEL) {
        Err(e) => assert!(matches!(e.spec, ErrorSpec::IndexOutOfRange)),
        Ok(_) => panic!("expected an indexing error"),
    }
}

#[test]
fn ternary_picks_by_condition() {
    let mut b = Builder::new();
    let cn = b.new_chain(Some(String::from("c")), loc()).ok().expect("declared");
    b.new_expression(Expression(Operation::Ternary(
        Operand::Var(n(1.0)),
        Operand::Var(n(10.0)),
        Operand::Var(n(20.0)),
    )));
    b.new_expression(Expression(Operation::Ternary(
        Operand::Var(n(0.0)),
        Operand::Var(n(10.0)),
        Operand::BackLink(1),
    )));
    assert!(b.finalize_chain().is_ok());
    let col = eval(&b, &cn, &Vec::new(), 2);
    assert_eq!(scalar(&col[0]), 10.0);
}

#[test]
fn unknown_chain_is_reported() {
    // A bare reference is already resolved while the chain finalizes.
    let mut b = Builder::new();
    b.new_chain(Some(String::from("c")), loc()).ok().expect("declared");
    b.new_expression(Expression(Operation::Operand(Operand::Id(ChainName::Scoped(
        String::from("nowhere"),
    )))));
    match b.finalize_chain() {
        Err(e) => assert!(matches!(e.spec, ErrorSpec::CantFindChain(_))),
        Ok(_) => panic!("expected a resolution error at finalization"),
    }
    // A reference inside a larger expression is only resolved when it is
    // evaluated.
    let mut b2 = Builder::new();
    let cn = b2.new_chain(Some(String::from("c")), loc()).ok().expect("declared");
    b2.new_expression(Expression(Operation::Add(
        Operand::Id(ChainName::Scoped(String::from("nowhere"))),
        Operand::Var(n(0.0)),
    )));
    assert!(b2.finalize_chain().is_ok());
    match b2.evaluate_chain(&cn, &Vec::new(), 0, 2, 0, 8.0f64.to_bits(), FUEL) {
        Err(e) => assert!(matches!(e.spec, ErrorSpec::CantFindChain(_))),
        Ok(_) => panic!("expected a resolution error"),
    }
}

#[test]
fn zero_backlink_is_reported() {
    let mut b = Builder::new();
    let cn = b.new_chain(Some(String::from("c")), loc()).ok().expect("declared");
    b.new_expression(Expression(Operation::Operand(Operand::BackLink(0))));
    assert!(b.finalize_chain().is_ok());
    match b.evaluate_chain(&cn, &Vec::new(), 0, 2, 0, 8.0f64.to_bits(), FUEL) {
        Err(e) => assert!(matches!(e.spec, ErrorSpec::ZeroBacklink)),
        Ok(_) => panic!("expected the zero-backlink error"),
    }
}

#[test]
fn properties_of_expression_chain_are_refused() {
    let mut b = Builder::new();
    b.new_chain(Some(String::from("g")), loc()).ok().expect("declared");
    b.new_expression(Expression(Operation::Operand(Operand::Time)));
    assert!(b.finalize_chain().is_ok());
    let cn = b.new_chain(Some(String::from("p")), loc()).ok().expect("declared");
    b.new_expression(Expression(Operation::Operand(Operand::Properties(
        ChainName::Scoped(String::from("g")),
        sonny::chain::Property::Start,
    ))));
    assert!(b.finalize_chain().is_ok());
    match b.evaluate_chain(&cn, &Vec::new(), 0, 2, 0, 8.0f64.to_bits(), FUEL) {
        Err(e) => assert!(matches!(e.spec, ErrorSpec::PropertiesOfGenericChain(_))),
        Ok(_) => panic!("expected the property error"),
    }
}

#[test]
fn transform_refuses_array_samples() {
    let mut b = Builder::new();
    let cn = b.new_chain(Some(String::from("c")), loc()).ok().expect("declared");
    b.new_expression(Expression(Operation::FFT(Operand::Expression(Box::new(Expression(
        Operation::Operand(Operand::Array(vec![Expression(Operation::Operand(Operand::Var(n(
            1.0,
        ))))])),
    ))))));
    assert!(b.finalize_chain().is_ok());
    match b.evaluate_chain(&cn, &Vec::new(), 0, 4, 0, 8.0f64.to_bits(), FUEL) {
        Err(e) => assert!(matches!(e.spec, ErrorSpec::FftOnArray)),
        Ok(_) => panic!("expected the transform shape error"),
    }
}

#[test]
fn transform_refuses_empty_window() {
    let mut b = Builder::new();
    let cn = b.new_chain(Some(String::from("c")), loc()).ok().expect("declared");
    b.new_expression(Expression(Operation::FFT(Operand::Var(n(1.0)))));
    assert!(b.finalize_chain().is_ok());
    match b.evaluate_chain(&cn, &Vec::new(), 0, 1, 0, 8.0f64.to_bits(), FUEL) {
        Err(e) => assert!(matches!(e.spec, ErrorSpec::FftEmptyWindow)),
        Ok(_) => panic!("expected the empty-window error"),
    }
}

#[test]
fn out_of_range_sub_array_is_reported() {
    let mut b = Builder::new();
    let cn = b.new_chain(Some(String::from("c")), loc()).ok().expect("declared");
    b.new_expression(Expression(Operation::SubArray(
        Operand::Expression(Box::new(Expression(Operation::Operand(Operand::Array(vec![
            Expression(Operation::Operand(Operand::Var(n(1.0)))),
        ]))))),
        Operand::Var(n(0.0)),
        Operand::Var(n(2.0)),
    )));
    assert!(b.finalize_chain().is_ok());
    match b.evaluate_chain(&cn, &Vec::new(), 0, 2, 0, 8.0f64.to_bits(), FUEL) {
        Err(e) => assert!(matches!(e.spec, ErrorSpec::SubArrayOutOfRange)),
        Ok(_) => panic!("expected the sub-array bounds error"),
    }
}

#[test]
fn notes_lookup_on_expression_links_is_refused() {
    let mut b = Builder::new();
    let cn = b.new_chain(Some(String::from("g")), loc()).ok().expect("declared");
    b.new_expression(Expression(Operation::Operand(Operand::Time)));
    assert!(b.finalize_chain().is_ok());
    let links = &b.find_chain(&cn).expect("resolved").links;
    match links.find_note(0, 0, &b, FUEL) {
        Err(e) => assert!(matches!(e.spec, ErrorSpec::NotesOfGenericChain)),
        Ok(_) => panic!("expected the generic-links error"),
    }
}
