use slovowiki::blocks::{alternatives_block, derivation_block, synonyms_block, AlternativeRow, FamilyMember, Synonym};
use slovowiki::model::CandidateSource;
use slovowiki::xref::HeadwordIndex;

fn s(v: &str) -> String {
    v.to_string()
}

fn index() -> HeadwordIndex {
    let mut idx = HeadwordIndex::new();
    idx.insert("dom", 7);
    idx.insert("hiša", 9);
    idx
}

#[test]
fn synonyms_link_headwords_and_search_the_rest() {
    assert_eq!(synonyms_block(&Vec::new(), &index()), "");
    let syns = vec![
        Synonym { word: s("Dom"), key: s("dom") },
        Synonym { word: s("kuća<"), key: s("kuća<") },
    ];
    assert_eq!(
        synonyms_block(&syns, &index()),
        "<section><h2 id='synonimy'>Synonimy</h2><div class='chips'>\
         <a class='chip xref' href='7.html'>Dom</a>\
         <a class='chip redlink' href='../search.html?q=kuća&lt;'>kuća&lt;</a>\
         </div></section>"
    );
}

#[test]
fn synonyms_show_at_most_twenty_four() {
    let syns: Vec<Synonym> = (0..30).map(|i| Synonym { word: format!("w{i}"), key: format!("w{i}") }).collect();
    let out = synonyms_block(&syns, &index());
    assert_eq!(out.matches("<a class='chip").count(), 24);
    assert!(out.contains(">w23</a>"));
    assert!(!out.contains(">w24</a>"));
}

fn member(form: &str, code: &str, heading: &str, label: &str) -> FamilyMember {
    FamilyMember { form: s(form), key: s(form), pos_code: s(code), pos_heading: s(heading), label: s(label) }
}

#[test]
fn derivation_table_counts_linked_and_proposed_forms() {
    assert_eq!(derivation_block(&Vec::new(), &index(), true), "");
    let fam = vec![member("dom", "n", "imennik", "-ø"), member("domik", "n", "imennik", "-ik"), member("domny", "", "", "-ny")];
    let out = derivation_block(&fam, &index(), true);
    assert!(out.starts_with("<div class='formation-derived'><h3>Pravilne odvodženja</h3>"));
    assert!(out.contains("<tr><td><a href='7.html'><span class='mention'>dom</span></a></td><td>imennik</td><td>-ø</td><td class='muted'>strana na sajtě</td></tr>"));
    assert!(out.contains("<tr><td><span class='mention'>domik</span></td><td>imennik</td><td>-ik</td><td class='muted'>mašinovy kandidat</td></tr>"));
    assert!(out.contains("<td>—</td><td>-ny</td>"));
    assert!(out.contains("Pokazano 3 tvorjenyh form: 1 imajųt stranicu, 2 sų samo pravilno tvorjeni kandidaty."));
    assert!(!out.contains("Baza je mašinova rekonstrukcija"));
    assert!(out.ends_with("O⇒E po mękkyh.</p></div>"));
    let hyp = derivation_block(&fam, &index(), false);
    assert!(hyp.ends_with(" <b>Baza je mašinova rekonstrukcija</b> (ne oficialna lemma), zato odvodženja sųt hypotetične.</p></div>"));
}

#[test]
fn alternatives_mark_the_top_candidate() {
    assert_eq!(alternatives_block(&Vec::new(), "T"), "<p class='muted'>Bez kandidatov.</p>");
    let cs = vec![
        AlternativeRow { form: s("dom"), source: CandidateSource::ProtoSlavicRule, source_label: s("praslovjansky"), score: s("0.912"), razum: s("87%"), branch_coverage: 3 },
        AlternativeRow { form: s("dum<"), source: CandidateSource::BranchConsensus, source_label: s("konsensus"), score: s("0.400"), razum: s("—"), branch_coverage: 1 },
    ];
    assert_eq!(
        alternatives_block(&cs, "razumlivosť"),
        "<table class='wikitable'><thead><tr><th>#</th><th>Forma</th><th>Izvor</th><th title='rangovy ključ (syrova ocěna), ne věrojętnosť'>Ocěna</th><th title='razumlivosť'>Razumlivosť</th><th>Větvi</th></tr></thead><tbody>\
         <tr id='cand-1' class='top-candidate'><td>1</td><td><span class='mention'>dom</span></td><td><span class='pill src-proto'>praslovjansky</span></td><td class='score'>0.912</td><td class='score'>87%</td><td>3</td></tr>\
         <tr id='cand-2' class=''><td>2</td><td><span class='mention'>dum&lt;</span></td><td><span class='pill src-consensus'>konsensus</span></td><td class='score'>0.400</td><td class='score'>—</td><td>1</td></tr>\
         </tbody></table>"
    );
}
