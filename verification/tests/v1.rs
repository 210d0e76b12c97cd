use reaclib::{Format, Iter, Line, ReaclibError, Resonance as R};
use std::collections::VecDeque;
use std::io::{self, BufRead, BufReader, Cursor, Read};

/// The lines of `input`, as a buffered reader splits them.
fn queue(input: &[u8]) -> VecDeque<Line> {
    Cursor::new(input)
        .lines()
        .map(|line| line.map_err(|e| e.kind()))
        .collect()
}

/// A source that cannot be read, as a directory opened for reading is.
struct Unreadable;

impl Read for Unreadable {
    fn read(&mut self, _buf: &mut [u8]) -> io::Result<usize> {
        Err(io::Error::from(io::ErrorKind::IsADirectory))
    }
}

const EMPTY: &str = "";

const SINGLE: &str = "1                                                                         
                                                                          
                                                                          
         n    p                            wc12w     7.82300e-01          
-6.781610e+00 0.000000e+00 0.000000e+00 0.000000e+00                      
 0.000000e+00 0.000000e+00 0.000000e+00                                   
";

const CHAPTER_UNSET: &str = "         n    p                            wc12w     7.82300e-01          
-6.781610e+00 0.000000e+00 0.000000e+00 0.000000e+00                      
 0.000000e+00 0.000000e+00 0.000000e+00                                   
";

const MULTI_CHAPTER: &str = "11                                                                        
                                                                          
                                                                          
       b17    n    n    n  b14             wc12w     7.82300e-01          
-6.781610e+00 0.000000e+00 0.000000e+00 0.000000e+00                      
 0.000000e+00 0.000000e+00 0.000000e+00                                   
       c20    n    n    n  c17             wc12w     7.82300e-01          
-6.781610e+00 0.000000e+00 0.000000e+00 0.000000e+00                      
 0.000000e+00 0.000000e+00 0.000000e+00                                   
       he8    n    n    n  he5             wc12w     7.82300e-01          
-6.781610e+00 0.000000e+00 0.000000e+00 0.000000e+00                      
 0.000000e+00 0.000000e+00 0.000000e+00                                   
1                                                                         
                                                                          
                                                                          
         n    p                            wc12w     7.82300e-01          
-6.781610e+00 0.000000e+00 0.000000e+00 0.000000e+00                      
 0.000000e+00 0.000000e+00 0.000000e+00                                   
2                                                                         
                                                                          
                                                                          
3                                                                         
                                                                          
                                                                          
7                                                                         
                                                                          
                                                                          
        h3  be7    n    p  he4  he4        wc12w     7.82300e-01          
-6.781610e+00 0.000000e+00 0.000000e+00 0.000000e+00                      
 0.000000e+00 0.000000e+00 0.000000e+00                                   
       he3  be7    p    p  he4  he4        wc12w     7.82300e-01          
-6.781610e+00 0.000000e+00 0.000000e+00 0.000000e+00                      
 0.000000e+00 0.000000e+00 0.000000e+00                                   
";

const UNFINISHED_LINE_1: &str = "1                                                                         
                                                                          
                                                                          
         n    p                            wc12w     7.82300e-01
-6.781610e+00 0.000000e+00 0.000000e+00 0.000000e+00                      
 0.000000e+00 0.000000e+00 0.000000e+00                                   
";

const UNFINISHED_LINE_2: &str = "1                                                                         
                                                                          
                                                                          
         n    p                            wc12w     7.82300e-01          
-6.781610e+00 0.000000e+00 0.000000e+00 0.000000e+00
 0.000000e+00 0.000000e+00 0.000000e+00                                   
";

const UNFINISHED_LINE_3: &str = "1                                                                         
                                                                          
                                                                          
         n    p                            wc12w     7.82300e-01          
-6.781610e+00 0.000000e+00 0.000000e+00 0.000000e+00                      
 0.000000e+00 0.000000e+00 0.000000e+00
";

const UNFINISHED_LINE_4: &str = "1                                                                         
                                                                          
                                                                          
         n    p                            wc12w     7.82300
-6.781610e+00 0.000000e+00 0.000000e+00 0.000000e+00                      
 0.000000e+00 0.000000e+00 0.000000e+00                                   
";

const UNFINISHED_LINE_5: &str = "1                                                                         
                                                                          
                                                                          
         n    p                            wc12w     7.82300e-01          
-6.781610e+00 0.000000e+00 0.000000e+00 0.000
 0.000000e+00 0.000000e+00 0.000000e+00                                   
";

const UNFINISHED_LINE_6: &str = "1


         n    p                            wc12w     7.82300e-01          
-6.781610e+00 0.000000e+00 0.000000e+00 0.000000e+00                      
 0.000000e+00 0.000000e+00 0.000000e+00                                   
";

const TOO_FEW_LINES: &str = "1                                                                         
                                                                          
                                                                          
         n    p                            wc12w     7.82300e-01          
-6.781610e+00 0.000000e+00 0.000000e+00 0.000000e+00                      
 0.000000e+00 0.000000e+00 0.000000e+00                                   
         n    p                            wc12w     7.82300e-01          
-6.781610e+00 0.000000e+00 0.000000e+00 0.000000e+00                      
";

const STR_INDEX_1: &str = "1                                                                         
                                                                          
                                                                          
         \u{e9}   p                            wc12w     7.82300e-01          
-6.781610e+00 0.000000e+00 0.000000e+00 0.000000e+00                      
 0.000000e+00 0.000000e+00 0.000000e+00                                   
";

const STR_INDEX_2: &str = "1                                                                         
                                                                          
                                                                          
         n    p                            wc12w    7.8\u{e9}300e-01          
-6.781610e+00 0.000000e+00 0.000000e+00 0.000000e+00                      
 0.000000e+00 0.000000e+00 0.000000e+00                                   
";

const UNKNOWN_CHAPTER: &str = "1                                                                         
                                                                          
                                                                          
         n    p                            wc12w     7.82300e-01          
-6.781610e+00 0.000000e+00 0.000000e+00 0.000000e+00                      
 0.000000e+00 0.000000e+00 0.000000e+00                                   
12                                                                        
                                                                          
                                                                          
         n    p                            wc12w     7.82300e-01          
-6.781610e+00 0.000000e+00 0.000000e+00 0.000000e+00                      
 0.000000e+00 0.000000e+00 0.000000e+00                                   
";

const UNKNOWN_RESONANCE: &str = "1                                                                         
                                                                          
                                                                          
         n    p                            wc12r     7.82300e-01          
-6.781610e+00 0.000000e+00 0.000000e+00 0.000000e+00                      
 0.000000e+00 0.000000e+00 0.000000e+00                                   
         n    p                            wc12n     7.82300e-01          
-6.781610e+00 0.000000e+00 0.000000e+00 0.000000e+00                      
 0.000000e+00 0.000000e+00 0.000000e+00                                   
         n    p                            wc12      7.82300e-01          
-6.781610e+00 0.000000e+00 0.000000e+00 0.000000e+00                      
 0.000000e+00 0.000000e+00 0.000000e+00                                   
         n    p                            wc12w     7.82300e-01          
-6.781610e+00 0.000000e+00 0.000000e+00 0.000000e+00                      
 0.000000e+00 0.000000e+00 0.000000e+00                                   
         n    p                            wc12s     7.82300e-01          
-6.781610e+00 0.000000e+00 0.000000e+00 0.000000e+00                      
 0.000000e+00 0.000000e+00 0.000000e+00                                   
         n    p                            wc12x     7.82300e-01          
-6.781610e+00 0.000000e+00 0.000000e+00 0.000000e+00                      
 0.000000e+00 0.000000e+00 0.000000e+00                                   
";

const PARSE_INT_ERROR: &str = "x                                                                         
                                                                          
                                                                          
         n    p                            wc12w     7.82300e-01          
-6.781610e+00 0.000000e+00 0.000000e+00 0.000000e+00                      
 0.000000e+00 0.000000e+00 0.000000e+00                                   
";

const PARSE_FLOAT_ERROR_1: &str = "1                                                                         
                                                                          
                                                                          
         n    p                            wc12w     7.82300x-01          
-6.781610e+00 0.000000e+00 0.000000e+00 0.000000e+00                      
 0.000000e+00 0.000000e+00 0.000000e+00                                   
";

const PARSE_FLOAT_ERROR_2: &str = "1                                                                         
                                                                          
                                                                          
         n    p                            wc12w     7.82300e-01          
-6.781610e+00 0.000000e+00 0.000000e+00 0.000000e+00                      
 0.000000e+00 0.0000y0e+00 0.000000e+00                                   
";

const MULTI: &str = "1                                                                         
                                                                          
                                                                          
         n    p                            wc12w     7.82300e-01          
-6.781610e+00 0.000000e+00 0.000000e+00 0.000000e+00                      
 0.000000e+00 0.000000e+00 0.000000e+00                                   
         t  he3                            wc12w     1.86000e-02          
-6.781610e+00 0.000000e+00 0.000000e+00 0.000000e+00                      
 0.000000e+00 0.000000e+00 0.000000e+00                                   
2                                                                         
                                                                          
                                                                          
       he3    p    d                       bet+wv   -5.49300e+00          
-6.781610e+00 0.000000e+00 0.000000e+00 0.000000e+00                      
 0.000000e+00 0.000000e+00 0.000000e+00                                   
4                                                                         
                                                                          
                                                                          
         n    p    d                       an06n     2.22457e+00          
-6.781610e+00 0.000000e+00 0.000000e+00 0.000000e+00                      
 0.000000e+00 0.000000e+00 0.000000e+00                                   
         n    p    d                       an06n     2.22457e+00          
-1.090770e+01 0.000000e+00-2.925400e+00 1.869600e+00                      
 0.000000e+00 0.000000e+00 0.000000e+00                                   
5                                                                         
                                                                          
                                                                          
         n  he3    p    t                  de04      7.63800e-01          
-6.781610e+00 0.000000e+00 0.000000e+00 0.000000e+00                      
 0.000000e+00 0.000000e+00 0.000000e+00                                   
";

const V2_MULTI: &str = "1
         n    p                            wc12w     7.82300e-01          
-6.781610e+00 0.000000e+00 0.000000e+00 0.000000e+00                      
 0.000000e+00 0.000000e+00 0.000000e+00                                   
1
         t  he3                            wc12w     1.86000e-02          
-6.781610e+00 0.000000e+00 0.000000e+00 0.000000e+00                      
 0.000000e+00 0.000000e+00 0.000000e+00                                   
2
       he3    p    d                       bet+wv   -5.49300e+00          
-6.781610e+00 0.000000e+00 0.000000e+00 0.000000e+00                      
 0.000000e+00 0.000000e+00 0.000000e+00                                   
4
         n    p    d                       an06n     2.22457e+00          
-6.781610e+00 0.000000e+00 0.000000e+00 0.000000e+00                      
 0.000000e+00 0.000000e+00 0.000000e+00                                   
4
         n    p    d                       an06n     2.22457e+00          
-1.090770e+01 0.000000e+00-2.925400e+00 1.869600e+00                      
 0.000000e+00 0.000000e+00 0.000000e+00                                   
5
         n  he3    p    t                  de04      7.63800e-01          
-6.781610e+00 0.000000e+00 0.000000e+00 0.000000e+00                      
 0.000000e+00 0.000000e+00 0.000000e+00                                   
";

// if the file is empty, that's not an error, there are just no items
#[test]
fn v1_empty() {
    let mut iter = Iter::new(queue(EMPTY.as_bytes()), Format::Reaclib1);
    assert!(iter.next().is_none());
}

#[test]
fn v1_single() {
    let mut iter = Iter::new(queue(SINGLE.as_bytes()), Format::Reaclib1);
    assert!(iter.next().is_some());
    assert!(iter.next().is_none());
}

// without a chapter, we don't know how to interpret the nuclide list, so it is an error
#[test]
fn chapter_unset() {
    let mut iter = Iter::new(queue(CHAPTER_UNSET.as_bytes()), Format::Reaclib1);
    assert_eq!(iter.next().unwrap(), Err(ReaclibError::ChapterUnset));
    assert!(iter.next().is_none());
}

// this is making sure that there's no problem with switching between chapters.
// since we don't explicitly keep track of the chapter, we check the number of reactants and
// products
// also, make sure that there's no problem with empty chapters
#[test]
fn multi_chapter() {
    let mut iter = Iter::new(queue(MULTI_CHAPTER.as_bytes()), Format::Reaclib1);

    let set = iter.next().unwrap().unwrap();
    assert_eq!(set.reactants.len(), 1);
    assert_eq!(set.products.len(), 4);
    let set = iter.next().unwrap().unwrap();
    assert_eq!(set.reactants.len(), 1);
    assert_eq!(set.products.len(), 4);
    let set = iter.next().unwrap().unwrap();
    assert_eq!(set.reactants.len(), 1);
    assert_eq!(set.products.len(), 4);
    let set = iter.next().unwrap().unwrap();
    assert_eq!(set.reactants.len(), 1);
    assert_eq!(set.products.len(), 1);
    let set = iter.next().unwrap().unwrap();
    assert_eq!(set.reactants.len(), 2);
    assert_eq!(set.products.len(), 4);
    let set = iter.next().unwrap().unwrap();
    assert_eq!(set.reactants.len(), 2);
    assert_eq!(set.products.len(), 4);
    assert!(iter.next().is_none());
}

// make sure you get the right error when the line is too short
// it is not an error if spaces are left off the end
#[test]
fn v1_unfinished_line() {
    // the end spaces don't matter
    let mut iter = Iter::new(queue(UNFINISHED_LINE_1.as_bytes()), Format::Reaclib1);
    assert!(iter.next().unwrap().is_ok());
    assert!(iter.next().is_none());

    // the end spaces don't matter
    let mut iter = Iter::new(queue(UNFINISHED_LINE_2.as_bytes()), Format::Reaclib1);
    assert!(iter.next().unwrap().is_ok());
    assert!(iter.next().is_none());

    // the end spaces don't matter
    let mut iter = Iter::new(queue(UNFINISHED_LINE_3.as_bytes()), Format::Reaclib1);
    assert!(iter.next().unwrap().is_ok());
    assert!(iter.next().is_none());

    let mut iter = Iter::new(queue(UNFINISHED_LINE_4.as_bytes()), Format::Reaclib1);
    assert_eq!(iter.next().unwrap(), Err(ReaclibError::TooShortLine));
    assert!(iter.next().is_none());

    let mut iter = Iter::new(queue(UNFINISHED_LINE_5.as_bytes()), Format::Reaclib1);
    assert_eq!(iter.next().unwrap(), Err(ReaclibError::TooShortLine));
    assert!(iter.next().is_none());

    // the end spaces don't matter
    let mut iter = Iter::new(queue(UNFINISHED_LINE_6.as_bytes()), Format::Reaclib1);
    assert!(iter.next().unwrap().is_ok());
    assert!(iter.next().is_none());
}

// this is for if a set doesn't have all three lines
#[test]
fn v1_too_few_lines() {
    let mut iter = Iter::new(queue(TOO_FEW_LINES.as_bytes()), Format::Reaclib1);
    assert!(iter.next().unwrap().is_ok());
    assert_eq!(iter.next().unwrap(), Err(ReaclibError::TooFewLines));
    assert!(iter.next().is_none());
}

// the input for this test has multi-byte chars
#[test]
fn v1_str_index() {
    // the char spans a slice boundary, so we get an indexing error
    let mut iter = Iter::new(queue(STR_INDEX_1.as_bytes()), Format::Reaclib1);
    assert_eq!(iter.next().unwrap(), Err(ReaclibError::StrIndex));
    assert!(iter.next().is_none());

    // the char is within a slice, so we get a parsing error
    let mut iter = Iter::new(queue(STR_INDEX_2.as_bytes()), Format::Reaclib1);
    assert!(matches!(
        iter.next().unwrap(),
        Err(ReaclibError::ParseFloat(_))
    ));
    assert!(iter.next().is_none());
}

#[test]
fn v1_unknown_chapter() {
    let mut iter = Iter::new(queue(UNKNOWN_CHAPTER.as_bytes()), Format::Reaclib1);
    assert!(iter.next().unwrap().is_ok());
    assert_eq!(iter.next().unwrap(), Err(ReaclibError::UnknownChapter(12)));
}

#[test]
fn v1_unknown_resonance() {
    let mut iter = Iter::new(queue(UNKNOWN_RESONANCE.as_bytes()), Format::Reaclib1);
    assert_eq!(iter.next().unwrap().unwrap().resonance, R::Resonant);
    assert_eq!(iter.next().unwrap().unwrap().resonance, R::NonResonant);
    assert_eq!(iter.next().unwrap().unwrap().resonance, R::NonResonant);
    assert_eq!(iter.next().unwrap().unwrap().resonance, R::Weak);
    assert_eq!(iter.next().unwrap().unwrap().resonance, R::S);
    assert!(matches!(
        iter.next().unwrap(),
        Err(ReaclibError::UnknownResonance(_))
    ));
}

// Every read from this source fails, so the first line of the first group is an error.
#[test]
fn v1_io_error() {
    let mut source = BufReader::new(Unreadable).lines();
    let mut iter = Iter::new(VecDeque::new(), Format::Reaclib1);
    for _ in 0..3 {
        if let Some(line) = source.next() {
            iter.push_line(line.map_err(|e| e.kind()));
        }
    }
    assert!(matches!(iter.next().unwrap(), Err(ReaclibError::Io(_))));
}

#[test]
fn v1_parse_error() {
    // fails to parse an int in a chapter
    let mut iter = Iter::new(queue(PARSE_INT_ERROR.as_bytes()), Format::Reaclib1);
    assert!(matches!(
        iter.next().unwrap(),
        Err(ReaclibError::ParseInt(_))
    ));

    // fails to parse a float in the q-value
    let mut iter = Iter::new(queue(PARSE_FLOAT_ERROR_1.as_bytes()), Format::Reaclib1);
    assert!(matches!(
        iter.next().unwrap(),
        Err(ReaclibError::ParseFloat(_))
    ));

    // fails to parse a float in the params
    let mut iter = Iter::new(queue(PARSE_FLOAT_ERROR_2.as_bytes()), Format::Reaclib1);
    assert!(matches!(
        iter.next().unwrap(),
        Err(ReaclibError::ParseFloat(_))
    ));
}

#[test]
fn v1_multi() {
    let iter = Iter::new(queue(MULTI.as_bytes()), Format::Reaclib1);
    assert!(matches!(iter.collect(), Ok(_)));
}

// This should fail when trying to parse a v2 file
#[test]
fn v1_multi_v2() {
    let iter = Iter::new(queue(V2_MULTI.as_bytes()), Format::Reaclib1);
    assert!(matches!(iter.collect(), Err(_)));
}
