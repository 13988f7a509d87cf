use slovowiki::official::{
    official_display_sections, official_frequency_chip, official_intelligibility_strip, OfficialDisplay,
};

fn s(v: &str) -> String {
    v.to_string()
}

fn names() -> Vec<(String, String)> {
    vec![(s("pl"), s("poljsky")), (s("cs"), s("češsky"))]
}

#[test]
fn frequency_chip_only_with_a_frequency() {
    assert_eq!(official_frequency_chip(&None), "");
    assert_eq!(
        official_frequency_chip(&Some(s("42"))),
        "<div class='headmeta'><span class='pill info' title='Čęstota v oficialnom slovniku (interslavic-dictionary.com)'>Čęstota 42</span></div>"
    );
}

#[test]
fn intelligibility_marks_become_chips() {
    assert_eq!(official_intelligibility_strip("   ", &names()), "");
    assert_eq!(official_intelligibility_strip(" ! ", &names()), "");
    assert_eq!(official_intelligibility_strip("x +", &names()), "");
    assert_eq!(
        official_intelligibility_strip(" pl+  cs~ x ru- + ", &names()),
        "<section><h2 id='razumlivost'>Vzajemna razumlivosť</h2><div class='chips'>\
         <span class='pill ok' title='poljsky'>pl +</span>\
         <span class='pill ' title='češsky'>cs ~</span>\
         <span class='pill bad' title='ru'>ru -</span>\
         </div><p class='muted attr-official'>Oficialne danne: interslavic-dictionary.com</p></section>"
    );
}

#[test]
fn display_sections_concatenate_translations_marks_and_example() {
    let o = OfficialDisplay {
        cells: vec![(s("pl"), s("!dom"))],
        de: s("Haus"),
        nl: s(""),
        eo: s(""),
        frequency: None,
        intelligibility: s("pl+"),
        using_example: s(""),
    };
    let out = official_display_sections(&o, &names(), &names());
    assert!(out.contains("<tr><td class='lc'>poljsky</td><td>dom</td></tr>"));
    assert!(out.contains("<tr><td class='lc'>němečsky</td><td>Haus</td></tr>"));
    assert!(out.contains("<span class='pill ok' title='poljsky'>pl +</span>"));
    let tr = out.find("poljsky</td>").unwrap();
    let intel = out.find("id='razumlivost'").unwrap();
    assert!(tr < intel);
}
