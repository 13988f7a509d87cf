//! Whole static pages that are mostly fixed text: the special-pages hub,
//! the random-word page, the search page, the contribution guide, the
//! accuracy statistics, the dataset list and the method page, plus the
//! build stamp.

use vstd::prelude::*;
use crate::layout::{compact, compact_spec, json_str, json_str_spec, page, page_spec, REPO_URL};
use crate::strs::{decimal, push_decimal, push_decimal_u64, push_str, string_from};

verus! {

/// The client-side search script, loaded on every page: the header search
/// box with its dropdown, the full results page and the random-word widget.
pub const SEARCH_JS: &'static str = "\nlet IDX=null;\nasync function ensure(){ if(IDX)return IDX; const r=await fetch(SITE_BASE+'search.json'); IDX=await r.json(); return IDX; }\nvar q=document.getElementById('q'), out=document.getElementById('results'), pageRes=document.getElementById('page-results');\nvar STR={V:['vysoka','conf-high'],S:['srědnja','conf-med'],N:['nizka','conf-low']};\nvar POS={noun:'imennik',proper_noun:'vlastno imę',verb:'glagol',adj:'pridavnik',adv:'narěčje',num:'čislovnik',pron:'zaimennik'};\nfunction posLabel(p){return POS[p]||p||'';}\nfunction strBadge(e){ var s=STR[e[5]]||STR.N; return \"<span class='reliability \"+s[1]+\"'>\"+s[0]+\"</span>\"; }\nfunction closeDropdown(){ if(out){ out.style.display='none'; out.innerHTML=''; } }\nfunction fold(x){ return (x||'').toLowerCase().normalize('NFD').replace(/[̀-ͯ]/g,'').replace(/đ/g,'d'); }\n// International committee columns (de/nl/eo) rank below the 12 Slavic cognates.\nvar INTL={de:1,nl:1,eo:1};\n// Best source-word alias match for the query (issue #31 dictionary evidence:\n// verbatim committee/cognate spellings, e[12]). Ranks exact source word high\n// (just under the ISV headword), then transliteration/fold, then prefix; the\n// international columns weigh less. Returns [score,'lang word'] so the hit can\n// show why it matched.\nfunction aliasMatch(al,s2,sf){ var best=0,lab='';\n  for(var i=0;i<al.length;i++){ var a=al[i],lang=a[0],w=a[1]||'',wl=w.toLowerCase(),wf=fold(wl),fs=a[2]||[],lo=INTL[lang]?1:0,sc=0;\n    if(wl===s2||wl===sf){ sc=lo?62:82; }\n    else{ var hit=(wf===sf); for(var j=0;!hit&&j<fs.length;j++){ if(fs[j]===s2||fs[j]===sf)hit=1; } if(hit){ sc=lo?54:72; }\n      else if(sf.length>=2){ var pre=(wl.indexOf(s2)===0||wf.indexOf(sf)===0); for(var j2=0;!pre&&j2<fs.length;j2++){ if(fs[j2].indexOf(sf)===0)pre=1; } if(pre){ sc=lo?44:56; } } }\n    if(sc>best){ best=sc; lab=lang+' '+w; } }\n  return [best,lab]; }\nfunction filters(){ return {\n  pos:(document.getElementById('f-pos')||{}).value||'', status:(document.getElementById('f-status')||{}).value||'',\n  conf:(document.getElementById('f-conf')||{}).value||'', borrowed:(document.getElementById('f-borrowed')||{}).value||'',\n  langs:parseInt((document.getElementById('f-langs')||{}).value||'0',10)||0\n}; }\nfunction pass(e,f){ if(f.pos&&e[3]!==f.pos)return false; if(f.status&&e[4]!==f.status)return false; if(f.conf&&e[5]!==f.conf)return false; if(f.borrowed!==''&&String(e[9]||0)!==f.borrowed)return false; if(f.langs&&Number(e[7]||0)<f.langs)return false; return true; }\nfunction scoreAll(raw){\n  var s=(raw||'').trim().toLowerCase(), ftr=filters(); var showAll=pageRes&&!s, s2=s.replace(/^to\\s+/,''), sf=fold(s2), hits=[];\n  for(var i=0;i<IDX.length;i++){ var e=IDX[i]; if(!pass(e,ftr))continue; var f=e[1].toLowerCase(), g=e[2].toLowerCase(), ks=e[6]||[];\n    var gs=g.split(/[,;]\\s*/), ff=fold(f), sc=showAll?1:0, anchor=0, srclab='';\n    if(!showAll){\n      if(f===s||f===s2)sc=100; else if(ff===sf)sc=90;\n      else{ for(var k=0;k<ks.length;k++){ var kr=ks[k]; if(kr[0]===s2||kr[0]===sf){ sc=85-3*Math.min(kr[1],5); if(kr[1]>1&&kr[1]<6)anchor=kr[1]; break; } } }\n      if(!sc){ if(f.indexOf(s2)===0||ff.indexOf(sf)===0)sc=60;\n        else if(gs.some(function(x){return x.trim()===s||x.trim()===s2;}))sc=55;\n        else if(ks.some(function(kr){return kr[0].indexOf(sf)===0;}))sc=50;\n        else if(f.indexOf(s2)>=0)sc=40; else if(g.indexOf(s2)>=0)sc=20; }\n      // A Slavic source/cognate match (committee evidence) outranks a mere\n      // form/gloss substring and annotates the hit with the matched word.\n      var am=aliasMatch(e[12]||[],s2,sf); if(am[0]>sc){ sc=am[0]; anchor=0; srclab=am[1]; } else if(am[0]>0&&am[0]===sc){ srclab=am[1]; }\n    }\n    if(sc>0)hits.push([sc,e,anchor,srclab]); if(hits.length>5000)break; }\n  hits.sort(function(a,b){return b[0]-a[0] || a[1][1].localeCompare(b[1][1]);}); return hits;\n}\nfunction eh(s){return String(s==null?'':s).replace(/&/g,'&amp;').replace(/</g,'&lt;').replace(/>/g,'&gt;');}\nfunction hitHTML(e,a,src){ var meta=\"<span class='hs'>\"+strBadge(e)+\"</span> <span class='hq'>\"+eh(e[10]||'')+\"</span>\"; if(e[11])meta+=\" <span class='ha'>\"+eh(e[11])+\"</span>\"; meta+=\" <span class='hl'>\"+(e[7]||0)+\" jęz. / \"+(e[8]||0)+\" vět.</span>\"; if(src)meta+=\" <span class='hsrc' title='Slovnikovy dokaz: perevod komiteta / kognat'>\"+eh(src)+\"</span>\"; return \"<a class='hit' href='\"+SITE_BASE+\"entry/\"+e[0]+\".html\"+(a?('#cand-'+a):'')+\"'><b>\"+eh(e[1])+\"</b> <span class='hp'>\"+eh(posLabel(e[3]))+\"</span> <span class='hg'>\"+eh(e[2])+\"</span> \"+meta+\"</a>\"; }\nasync function run(showDropdown){\n  await ensure(); var v=q?q.value:''; var hits=scoreAll(v);\n  // The search page has full results below the filters, so never reopen the\n  // compact header dropdown there. Filter changes also pass showDropdown=false.\n  if(out){ if(showDropdown && !pageRes && v.trim()){ var h=hits.slice(0,8).map(function(x){return hitHTML(x[1],x[2],x[3]);}).join('');\n      if(!h)h=\"<div class='muted nohit'>Ničto ne najdeno.</div>\";\n      else if(hits.length>8)h+=\"<a class='hit more' href='\"+SITE_BASE+\"search.html?q=\"+encodeURIComponent(v.trim())+\"'>Vse \"+hits.length+\" rezultatov -></a>\";\n      out.innerHTML=h; out.style.display='block'; } else closeDropdown(); }\n  if(pageRes){ var c=document.getElementById('rescount'); if(c)c.textContent=hits.length;\n    pageRes.innerHTML=hits.slice(0,400).map(function(x){return hitHTML(x[1],x[2],x[3]);}).join('')||\"<div class='muted'>Ničto ne najdeno.</div>\"; }\n}\nfunction goSearch(e){\n  e.preventDefault(); var v=q?q.value.trim():''; closeDropdown(); if(q)q.blur();\n  if(pageRes){ if(history.replaceState){ history.replaceState(null,'',SITE_BASE+'search.html'+(v?'?q='+encodeURIComponent(v):'')); } run(false); return false; }\n  if(v) location.href=SITE_BASE+'search.html?q='+encodeURIComponent(v);\n  return false;\n}\nif(q){ var t=null; q.addEventListener('input',function(){ clearTimeout(t); t=setTimeout(function(){ run(true); },110); });\n  q.addEventListener('focus',function(){ if(q.value.trim())run(true); });\n  q.addEventListener('keydown',function(ev){ if(ev.key==='Escape'){ closeDropdown(); q.blur(); } }); }\n['f-pos','f-status','f-conf','f-borrowed','f-langs'].forEach(function(id){ var el=document.getElementById(id); if(el)el.addEventListener('input',function(){run(false);}); if(el)el.addEventListener('change',function(){run(false);}); });\ndocument.addEventListener('click',function(ev){ if(out&&!ev.target.closest('.hsearch'))closeDropdown(); });\nasync function randomWord(){ await ensure(); if(!IDX.length)return; var pool=IDX.filter(function(e){return e[5]==='V'||e[4]==='O'}); if(!pool.length)pool=IDX; var e=pool[Math.floor(Math.random()*pool.length)];\n  var el=document.getElementById('spotlight'); if(!el)return; var box=document.getElementById('spotbox'); if(box)box.style.display='';\n  el.innerHTML=\"<a class='spotlight-word' href='\"+SITE_BASE+\"entry/\"+e[0]+\".html'>\"+eh(e[1])+\"</a><div class='muted'>\"+eh(posLabel(e[3]))+\" · \"+eh(e[2])+\"</div><div class='spot-strength'>\"+strBadge(e)+\" \"+eh(e[10]||'')+\"</div>\"; }\nvar rb=document.getElementById('randbtn'); if(rb) rb.addEventListener('click',randomWord);\nif(document.getElementById('spotlight')) randomWord();\n(function(){ var p=new URLSearchParams(location.search).get('q'); if(p&&q)q.value=p; if(pageRes||p)run(false); })();\n";

/// The spec of [`site_page`].
pub open spec fn site_page_spec(title: Seq<char>, body: Seq<char>, depth: nat) -> Seq<char> {
    page_spec(title, body, depth, SEARCH_JS@)
}

/// A full page with the site's search script.
pub fn site_page(title: &str, body: &str, depth: usize) -> (r: String)
    ensures
        r@ == site_page_spec(title@, body@, depth as nat),
{
    page(title, body, depth, SEARCH_JS)
}

/// The body of [`random_page`].
pub const RANDOM_BODY: &'static str = "<article class='entry'><h1 class='firstHeading'>Speciaľno:Slučajno</h1><p>Ta statična strana koristi lokalny <code>search.json</code> i izbere slučajnu stranu zapisa bez servera.</p><p id='random-target' class='notice'>Nakladajě sę…</p><script>document.addEventListener('DOMContentLoaded',function(){ensure().then(function(idx){if(!idx.length)return;var eh=function(s){return String(s==null?'':s).replace(/&/g,'&amp;').replace(/</g,'&lt;').replace(/>/g,'&gt;');};var e=idx[Math.floor(Math.random()*idx.length)];var a='entry/'+e[0]+'.html';document.getElementById('random-target').innerHTML='<a href=\"'+a+'\">'+eh(e[1])+'</a> — '+eh(e[2])+'<br><a href=\"'+a+'\">Idi</a>';});});</script></article>";

/// The random-word page: picks an entry from the local search index in
/// the browser.
pub fn random_page() -> (r: String)
    ensures
        r@ == site_page_spec("Speciaľno:Slučajno"@, RANDOM_BODY@, 0),
{
    site_page("Speciaľno:Slučajno", RANDOM_BODY, 0)
}

/// The body of [`special_pages_hub`].
pub const SPECIAL_PAGES_BODY: &'static str = "<article class='entry'><h1 class='firstHeading'>Speciaľne strany</h1><p class='lede'>Statične wiki-podobne služebne strany za prěgledanje slovnika.</p><ul class='compact-list'><li><a href='all-pages.html'>Speciaľno:VseStrany</a></li><li><a href='categories.html'>Speciaľno:Kategorije</a></li><li><a href='site-stats.html'>Speciaľno:Statistiky</a></li><li><a href='needs-review.html'>Speciaľno:TrěbujePrověrky</a></li><li><a href='inflection-issues.html'>Speciaľno:ProblemyPrěgibanja</a></li><li><a href='random.html'>Speciaľno:Slučajno</a></li><li><a href='featured.html'>Speciaľno:Izbrano</a></li><li><a href='borrowings.html'>Portal:PozajętaSlova</a></li><li><a href='suffix-index.html'>Indeks po zakončenjah</a></li><li><a href='datasets.html'>Fajly za dostavanje</a></li><li><a href='proposals.html'>Predloženja novyh slov</a></li><li><a href='forms.html'>Iskanje form</a></li><li><a href='text-check.html'>Prověrka teksta</a></li><li><a href='portals.html'>Języčne portaly</a></li><li><a href='indices.html'>Abecedne indeksy</a></li><li><a href='graph.html'>Semantičny graf</a></li></ul></article>";

/// The hub that links every special page.
pub fn special_pages_hub() -> (r: String)
    ensures
        r@ == site_page_spec("Speciaľne strany"@, SPECIAL_PAGES_BODY@, 0),
{
    site_page("Speciaľne strany", SPECIAL_PAGES_BODY, 0)
}

/// The body of [`contribute_page`].
pub const CONTRIBUTE_BODY: &'static str = "<article class='entry'><h1 class='firstHeading'>Kako pomagati</h1><p>Projekt je statično generovany: změni podatky, regeneruj sajt, zapusti testy, pošlji prošnju za spoj.</p><ol><li><code>cargo test</code></li><li><code>cargo run --release -- export --out site</code></li><li>Za ručne noty dodaj <code>data/curation-notes.json</code> s ključem zaglavnogo slova ili id-ja.</li><li>Za grešku v zapisu klikni <i>Popraviti / problem</i> na vrhu strany.</li></ol><h2>Kuracija bez koda</h2><ul><li><b>Semantične pasti</b> (falšive prijatelje): <code>data/semantic-notes.json</code> — vsaka nota mųsi citovati oficialno značenje; noty sę pokazujųt v <a href='text-check.html'>Prověrkě teksta</a> i v CLI <code>check-text</code>.</li><li><b>Predloženja novyh slov</b>: prěgledaj <a href='proposals.html'>Predloženja</a> (kalibrovana věrojętnosť p) i dodaj kuratorsku notu za slovo.</li><li><b>Prověrka form</b>: <a href='forms.html'>Iskanje form</a> pokazyvaje vse analizy kojejkoli fleksijnoj formy.</li></ul><p>Za stroje i skripty: statičny leksikalny API pod <code>api/</code> (<a href='api/agent-guide.md'>agent-guide.md</a>, <a href='datasets.html'>datoteky</a>).</p><p><a href='https://github.com/gold-silver-copper/Slovowiki'>Izvorny kod na GitHub</a> — vidi <code>CONTRIBUTING.md</code> za metodologiju (benchmark-gated pravila, dev/holdout, značimost).</p></article>";

/// How to contribute: regenerate, test, curate.
pub fn contribute_page() -> (r: String)
    ensures
        r@ == site_page_spec("Prinos"@, CONTRIBUTE_BODY@, 0),
{
    site_page("Prinos", CONTRIBUTE_BODY, 0)
}

/// The body of [`metrics_page`].
pub const METRICS_BODY: &'static str = "<article class='entry metrics'>\n  <h1 class='firstHeading'>Statistiky točnosti</h1>\n  <p class='lede'>Ta strana objasnjaje <b>vsaku statistiku</b>, ktoru měrimo, da bismo proverili točnosť generatora protiv oficialnogo medžuslovjanskogo slovnika. Čisla sųt aktualne měrjenja produkcijnoj konfiguracije; vsaky artefakt sę regeneruje v <code>target/eval/</code>.</p>\n\n  <h2 id='setup'>Kako radi testovo množstvo</h2>\n  <p>Za vsaky smysl (16&nbsp;300 jednoslovnyh zapisov) generator dostaje <b>moderne slovjanske srodne slova</b> + časť rěči, rod i priznak internacionalizma (<code>genesis</code>) — ale <b>nikȯgda</b> oficialnu medžuslovjansku formu (<code>isv</code>). On rekonstruuje lemmu, a my ju sravnjajemo s oficialnoju. Tako testovo množstvo je <b>bez utečki</b> ględe formy. Komanda: <code>evaluate</code>.</p>\n\n  <h2 id='pravopis'>Dva pravopisa: točno protiv normalizovano</h2>\n  <p>Medžuslovjansky imaje dva pravopisa. <b>Naučny (variantny)</b> dŕži etimologične znaky (ě, ę, ų, å, ȯ, ć, đ, y, mękke ĺ&nbsp;ń&nbsp;ŕ). <b>Standardny</b> jih složaje: ě→e, ę→e, ų→u, å→a, ȯ→o, ć→č, đ→dž. Zato imamo dva urovni sovpadenja — strogo (variantno) i normalizovano.</p>\n\n  <h2 id='osnovne'>Osnovne měrky sovpadenja (evaluate)</h2>\n  <table class='wikitable'>\n    <thead><tr><th>Statistika</th><th>Aktualno</th><th>Značenje</th></tr></thead>\n    <tbody>\n    <tr><td><b>točno pŕvy izbor</b> (povno)</td><td>41,65%</td><td>Prědvidženje je <b>identično</b> oficialnoj variantnoj lemmě, znak-v-znak.</td></tr>\n    <tr><td><b>normalizovano — pŕvy izbor</b></td><td>49,59%</td><td>Identično <b>po složenju</b> oběh v standardny alfavit (ě=e, ć=č…). Glavna měrka i porog stalnoj integracije.</td></tr>\n    <tr><td>skelet pŕvy izbor</td><td>—</td><td>Identično po agresivnom ASCII-složenju (bez diakritiky, složene sibilanty). Najslabějše sito.</td></tr>\n    <tr><td><b>normalizovano pŕve 3 / pŕve 5</b></td><td>60,48% / 63,12%</td><td>Nekotory od prvyh 3 / 5 rangovanyh kandidatov sovpadaje (normalizovano).</td></tr>\n    <tr><td><b>srědnja pravopisna distancija</b></td><td>0,224</td><td>Srědnja normalizovana Levenshtein-distancija (0 = identično, 1 = vpolno različno).</td></tr>\n    </tbody>\n  </table>\n\n  <h2 id='ladder'>Lěstvica odstranjenja</h2>\n  <p>Točnosť raste od <b>osnovy</b> (27,52% točno — prvobytny prototip) do <b>produkcije</b> (41,65%). Vsaky stųpenj dodavaje <b>točno jedno</b> pravilo, tako že jego dělta je pripisiva. Pravila, ktore izměrjeno <b>uhudšajųt</b> točnosť, sųt odbrošene i zapisane kako „odbrošene eksperimenty“. Polny izvěsť: <code>candidate-generation-report.md</code>.</p>\n\n  <h2 id='razbivka'>Děljeńje po kategorijah</h2>\n  <ul>\n    <li><b>Po čęsti rěči</b> — točnosť za imenniky, glagoly, pridavniky, čislovniky itd. odděljeno.</li>\n    <li><b>Po pokrytju větvi</b> — koliko od trěh větvi (iztok / zapad / jug) potvŕđaje formu; više pokrytja = viša točnosť.</li>\n    <li><b>Po věrodostojnosti</b> — vidi niže.</li>\n  </ul>\n\n  <h2 id='kalibracija'>Kalibracija věrodostojnosti</h2>\n  <p>Vsakomu kandidatu dajemo <b>kalibrovanu věrodostojnosť</b>. Dobra kalibracija znači: vysokověrodostojne kandidaty sovpadajųt čęstěje.</p>\n  <table class='wikitable'><thead><tr><th>Věrodostojnosť</th><th>n</th><th>normalizovano sovpadenje</th></tr></thead>\n  <tbody><tr><td>vysoka</td><td>6&nbsp;988</td><td>72%</td></tr><tr><td>srědnja</td><td>7&nbsp;097</td><td>39%</td></tr><tr><td>nizka</td><td>2&nbsp;215</td><td>12%</td></tr></tbody></table>\n  <p>Podrobna kalibracija je v <code>methodology.md</code>: tablica věrodostojnosti po decilah, ECE i Brier, plus <b>izotonična rekalibracija</b> — naučena na razvojnoj čęsti i prověrjena na odloženoj četvrtině (ECE na odloženyh: 0,195 syrovo → <b>0,013</b> rekalibrovano). Rekalibrovana věrojętnosť je to, čto třěba čitati kako <i>P(sovpadenja s oficialnoju lemmoju)</i>.</p>\n\n  <h2 id='corpus'>Sajtovy pųť (corpus-eval)</h2>\n  <p>Sajt koristi ne glavny proces, a svoj <b>put srodnyh množin</b> (<code>corpus::generate_set</code>), měrjeny odděljeno: <b>58,6% točno / 63,1% normalizovano</b> na ~7,4k zapisah s znanym prědkom. Više od glavne linije, potomu što ocěnjaje tȯlko slova, ktore sajt izvodi iz znanogo prědka. Komanda: <code>corpus-eval</code>.</p>\n\n  <h2 id='proto'>Praslovjansky stroj (proto-eval)</h2>\n  <p>Praslovjansky pravilny stroj izměrjeny izolovano od povęzanja, ranga i konsensusa:</p>\n  <ul>\n    <li><b>pokrytosť povęzanja</b>: <b>20,1%</b> smyslov je pouzdano povęzano s rekonstrukcijeju.</li>\n    <li><b>točnosť na povęzanyh</b>: <b>46,68% točno / 52,74% normalizovano</b>.</li>\n  </ul>\n  <p>Komanda: <code>proto-eval</code>.</p>\n\n  <h2 id='audit'>Analiza grěšek (prověrka)</h2>\n  <ul>\n    <li><b>Tri klasy grěšek</b>: <i>križna grupa</i> (~48% — oficialny korenj je v dokazě, ale izbran drugy), <i>prava grupa–kriva forma</i> (~30%), <i>korenj otsutny</i> (~21% — oficialnogo korenja net v srodnyh slovah).</li>\n    <li><b>Histogram pripisanja stupnjam</b>: prěigrivaje sled pravil pobědnika i pripisyvaje grěšku stųpnju, ktora izgubila odgovor — grupa/glas ~33%, sľanje/rang ~22%, korenj-otsutny ~22%, normalizacija/prědstavitelj ~15%, zakončenja ~6%, praslovjansky stroj ~1,6%. Vidi <code>stage-attribution.md</code>.</li>\n    <li><b>Kohezija</b>: koliko različnyh srodnyh grup imaje vsaky smysl (89,5% imaje ≥3).</li>\n  </ul>\n  <p>Komanda: <code>audit</code>.</p>\n\n  <h2 id='oracle'>Diagnostične granice (idealny test)</h2>\n  <p>Da izměriti <b>gorny prědel</b> vsake stupnje, dělajemo ju „idealnų“ (čitajų oficialny odgovor) dok vse niže ostaje realno. To <b>nikȯgda</b> ne ide v produkciju — samo pokazyvaje, gdě je vȯzstanovima greška.</p>\n  <table class='wikitable'><thead><tr><th>Idealny stųpenj</th><th>Δ točno</th></tr></thead>\n  <tbody><tr><td>izbor grupy</td><td>+4,5pp — glavno redakcijno, nedostižno slěpo</td></tr><tr><td>izbor prědstavitelja</td><td>+2,3pp (medoid uže vzęl +1,1pp)</td></tr><tr><td>proto-povęzanje</td><td>+2,7pp</td></tr><tr><td>vse trě zajedno</td><td>+9,4pp</td></tr></tbody></table>\n  <p>Komanda: <code>oracle</code>.</p>\n\n  <h2 id='probes'>Izbor grupy i prědstavitelja (select-eval / rep-eval)</h2>\n  <p>Měrimo, koliko od gornih prědelov može vȯzstanoviti <b>pravilo bez utečki</b> (ne čitajuče odgovor):</p>\n  <ul>\n    <li><b>select-eval</b> (izbor grupy): vse slěpe pravila (najviše językov / větvi, internacionalizm-prvo) <b>uhudšajųt</b> — potvŕđaje, že križna grupa je redakcijna granica, ne programna greška.</li>\n    <li><b>rep-eval</b> (izbor prědstavitelja): pravilo <b>medoid</b> (najcentralnějša forma, najmenša suma distancij do drugih) davaje <b>+1,09pp</b> i je uže v produkciji; ostaje ~+2,3pp do granice.</li>\n  </ul>\n\n  <h2 id='synonym'>Sinonimno-svěstna točnosť (synonym-eval)</h2>\n  <p>Strogo testovo množstvo pytaje „sovpadaje li s <b>jedinoju</b> oficialnoju lemmoju?“, ale medžuslovjansky imaje mnogo validnyh slov na jedno značenje, a slovnik zapisuje samo jedno. Ta měrka pripisuje prědvidženju, ktore reproduktuje <b>kojukoli</b> oficialnu lemmu s tym že značenjem (iz sinonimnogo tezaurusa):</p>\n  <table class='wikitable'><thead><tr><th>Měrka</th><th>pŕvy izbor</th></tr></thead>\n  <tbody><tr><td>točno</td><td>41,65%</td></tr><tr><td>normalizovano (strogo)</td><td>49,59%</td></tr><tr><td><b>sinonimno-vključno</b></td><td><b>55,76%</b></td></tr></tbody></table>\n  <p>Děljeńje strogih grěšek: <b>12,2% validny sinonim</b> (druga oficialna lemma, isto značenje), 7,9% druga oficialna lemma (drugo značenje), 79,8% ne-oficialna forma (nova ili prava greška — nerazlučima bez tezaurusa maternjego govoritelja). Komanda: <code>synonym-eval</code>.</p>\n\n  <h2 id='artefakty'>Artefakty</h2>\n  <p>Vse měrjenja sųt zapisane v <code>target/eval/</code>: <code>candidate-generation-report.md</code>, <code>stage-attribution.md</code>, <code>oracle-ladder.md</code>, <code>cluster-selection.md</code>, <code>rep-selection.md</code>, <code>synonym-accuracy.md</code>, <code>methodology.md</code> (razděl razvoj/kontrola bez prěučenja, značimosť stupnjev, bootstrap-intervaly, kalibracija), <code>predictions.csv</code> (vse prědvidženja). Vsaka je reproducibilna jednoju komandoju.</p>\n</article>";

/// The accuracy statistics, each measure explained.
pub fn metrics_page() -> (r: String)
    ensures
        r@ == site_page_spec("Statistiky točnosti — medžuslovjansky"@, METRICS_BODY@, 0),
{
    site_page("Statistiky točnosti — medžuslovjansky", METRICS_BODY, 0)
}

/// The body of [`search_page`].
pub const SEARCH_PAGE_BODY: &'static str = "<article class='entry search-page'><h1 class='firstHeading'>Iskanje</h1><p class='muted'>Napiši v polje gore i pritisni <b>Enter</b>, ili filtruj statičny indeks. Najdeno: <b id='rescount'>0</b> rezultatov.</p><form class='filter-grid' onsubmit='return false'><label>Čęst rěči <select id='f-pos'><option value=''>vse</option><option value='noun'>imennik</option><option value='verb'>glagol</option><option value='adj'>pridavnik</option><option value='adv'>narěčje</option><option value='proper_noun'>vlastno imę</option><option value='num'>čislovnik</option></select></label><label>Stav <select id='f-status'><option value=''>vse</option><option value='O'>oficialne</option><option value='N'>samo generovane</option><option value='R'>surove atestacije</option></select></label><label>Uvěrjenost <select id='f-conf'><option value=''>vse</option><option value='V'>vysoka</option><option value='S'>srědnja</option><option value='N'>nizka</option></select></label><label>Tip <select id='f-borrowed'><option value=''>vse</option><option value='0'>naslědovane</option><option value='1'>zaimky</option></select></label><label>Min. językov <input id='f-langs' type='number' min='0' value='0'></label></form><div id='page-results' class='results full'></div></article>";

/// The full search-results page with its filters; it reads `?q=` and
/// lists every match.
pub fn search_page() -> (r: String)
    ensures
        r@ == site_page_spec("Iskanje — medžuslovjansky"@, SEARCH_PAGE_BODY@, 0),
{
    site_page("Iskanje — medžuslovjansky", SEARCH_PAGE_BODY, 0)
}

/// The opening of the dataset page, before the coverage section.
pub const DATASETS_HEAD: &'static str = "<article class='entry'><h1 class='firstHeading'>Fajly za dostavanje</h1><p class='lede'>Statične JSON fajly za raziskovanje i ponovno upotrěbljenje.</p><table class='wikitable'><tr><th>Fajl</th><th>Opis</th></tr><tr><td><a href='entries.json'>entries.json</a></td><td>Metadany zapisa: id, naslov, smysl, čęst rěči, uvěrjenost, prědȯk.</td></tr><tr><td><a href='edges.json'>edges.json</a></td><td>Vęzi semantičnogo grafa.</td></tr><tr><td><a href='categories.json'>categories.json</a></td><td>Členstvo v kategorijah.</td></tr><tr><td><a href='roots.json'>roots.json</a></td><td>Členstvo v praslovjanskyh korenjah.</td></tr><tr><td><a href='search.json'>search.json</a></td><td>Klientsky indeks iskanja.</td></tr><tr><td><a href='novel-words.tsv'>novel-words.tsv</a></td><td>Predloženja novyh slov s kalibrovanoju věrojetnostju i kȯšikom (predlog/pregled).</td></tr><tr><td><a href='api/meta.json'>api/meta.json</a></td><td>Leksikalny API za stroje: šema, ličby, licencija, routing indeksa.</td></tr><tr><td><a href='api/lemmas.json'>api/lemmas.json</a></td><td>Vse lemmy s statusom i kalibrovanoju věrojetnostju.</td></tr><tr><td>api/forms/&lt;n&gt;.json</td><td>Fleksijny indeks (razděljeny; vidi <a href='api/agent-guide.md'>agent-guide.md</a> i <a href='forms.html'>Iskanje form</a>).</td></tr><tr><td><a href='build.json'>build.json</a></td><td>Metadany aktualnoj gradby (git, ličby).</td></tr></table>";

/// The downloadable-files page: every static JSON file with what it holds,
/// followed by the dataset-coverage section.
pub fn datasets_page(coverage: &str) -> (r: String)
    ensures
        r@ == site_page_spec("Fajly za dostavanje"@, DATASETS_HEAD@ + coverage@ + "</article>"@, 0),
{
    let mut body = string_from(DATASETS_HEAD);
    push_str(&mut body, coverage);
    push_str(&mut body, "</article>");
    site_page("Fajly za dostavanje", body.as_str(), 0)
}

/// The body of the method page.
pub open spec fn corpus_about_body(n: usize, lemma_total: usize, official: usize) -> Seq<char> {
    "<article class='entry about'>\n           <h1 class='firstHeading'>O metodě</h1>\n           <p class='lede'>Toj slovnik je <b>statičny, dokazovy wiki-eksperiment</b>: ne kopija oficialnogo slovnika, ale generovany atlas slovjanskyh srodnyh slov, praslovjanskyh korenjev i medžuslovjanskyh kandidatov.</p>\n\n           <table class='wikitable compact-table'>\n             <tr><th>Srodne strany zapisov</th><td>"@
        + compact_spec(n as nat)
        + "</td><th>Slovjanske lemmaty v korpusu</th><td>"@
        + compact_spec(lemma_total as nat)
        + "</td></tr>\n             <tr><th>Generovane formy s oficialnym sovpadenjem</th><td>"@
        + compact_spec(official as nat)
        + "</td><th>Model sajta</th><td>prosty HTML + JSON, bez servera</td></tr>\n           </table>\n\n           <h2 id='kratko'>Kratko</h2>\n           <p>Vsaka strana pytaje odgovor na wiki-podobno vprašanje: <i>ako mnogo slovjanskyh językov kaže na tu ideju, kaka medžuslovjanska forma je najvěrojętnějša, i čemu?</i> Zato strany zapisov pokazyvajųt ne samo slovo, ale i srodne slova, semantične vęzi, etimologiju, sled pravil, kategorije i izvory.</p>\n\n           <h2 id='pipeline'>Kako nastaje zapis</h2>\n           <pre class='pipeline-diagram'>Wiktionary lemmaty → srodne grupy → praslovjanske pravila → kandidaty → uvěrjenost → wiki-strana</pre>\n           <ol>\n             <li><b>Izvlečenje lemmatov.</b> Iz Wiktionary sȯbiramy slovjanske lemmy — imenniky, infinitivy glagolov, pozitivne pridavniki i internacionalizmy — zajedno s etimologičnym korenjem.</li>\n             <li><b>Srodne grupy.</b> Lemmaty s tym že praslovjanskym prědkom ili s podobnym internacionalnym skeletom tvorę jednu grupu.</li>\n             <li><b>Rekonstrukcija.</b> Praslovjansky pravilny stroj davaje variantno-medžuslovjansku formu; medžuvětvovy konsensus iz modernyh językov davaje alternativy.</li>\n             <li><b>Ocěna dokaza.</b> Uvěrjenost raste s čislom językov i s pokrytjem trěh větvi: vȯzhod, zapad, jug.</li>\n             <li><b>Wiki-sloj.</b> Sajt dodavaje kategorije, portaly, backlinks, homografne strany, semantičny graf i statične indeksy.</li>\n           </ol>\n\n           <h2 id='citati-entry'>Kako čitati stranu zapisa</h2>\n           <ul>\n             <li><b>Oznaka</b> govori, koliko językov i větvi podpira formu, i či ona sovpadaje s oficialnym slovnikom.</li>\n             <li><b>Formy i kandidaty</b> pokazyvajųt alternativne pravopisy i rangy, ne samo poběditelja.</li>\n             <li><b>Srodne slova</b> sųt surovy dokaz po slovjanskyh větvah; to je najvažnějša čęsť strany.</li>\n             <li><b>Etimologija</b> veze zapis k praslovjanskoj rekonstrukciji ili internacionalnomu etimonu.</li>\n             <li><b>Sled pravil</b> je sled prověrky: koje pravilo proměnilo formu i kako.</li>\n             <li><b>Kategorije</b> i <b>portaly</b> pomagajų prěgledati slovnik kako wiki, ne samo kako polje iskanja.</li>\n           </ul>\n\n           <h2 id='wiki'>Wiki-navigacija</h2>\n           <p>Najbolje startne točky: <a href='special.html'>posebne strany</a>, <a href='all-pages.html'>Vse strany</a>, <a href='categories.html'>Kategorije</a>, <a href='portals.html'>językove portaly</a>, <a href='borrowings.html'>portal zaimok</a>, <a href='needs-review.html'>spis za prověrku</a>, <a href='site-stats.html'>statistiky sajta</a>, <a href='graph.html'>semantičny graf</a>, <a href='rules.html'>indeks pravil (zvukove zakony)</a>, <a href='proto-index.html'>praslovjanske lemmy s refleksami</a>, <a href='derivations.html'>odvodženja po sufiksah</a> i <a href='metrics.html'>statistiky točnosti</a>.</p>\n\n           <h2 id='validacija'>Validacija i granice</h2>\n           <p>"@
        + compact_spec(official as nat)
        + " generovanyh slov sovpadaje s oficialnym medžuslovjanskim slovnikom. To je kontrola, ale ne jedin cilj: mnogo validnyh medžuslovjanskyh slov može byti synonymami, regionalnymi izborami ili novymi kandidami, ktoryh oficialny slovnik ne imaje.</p>\n           <p>Slabe strany sųt jasno označene: mala językova pokrytosť, nizka uvěrjenost, homografi, neoficialny stav i mašinno prěgibanje. Strana zato davaje <a href='"@
        + REPO_URL@
        + "/issues'>linky problemov</a> i kuratorske noty.</p>\n\n           <h2 id='licencija'>Izvory i licencija</h2>\n           <p>Dokazy i etimologije: Wiktionary i narodny Wiktionary (CC BY-SA). Oficialny slovnik: interslavic-dictionary.com. Prěgibanje: <code>interslavic-rs</code>. Kod projekta: <a href='"@
        + REPO_URL@
        + "'>MIT na GitHub</a>.</p>\n         </article>"@
}

/// The method page: what the dictionary is, how an entry is made, how to
/// read one, and the counts of entries, corpus lemmas and official matches.
pub fn corpus_about(n: usize, lemma_total: usize, official: usize) -> (r: String)
    ensures
        r@ == site_page_spec("O metodě — medžuslovjansky generator"@, corpus_about_body(n, lemma_total, official), 0),
{
    let mut body = String::new();
    push_str(&mut body, "<article class='entry about'>\n           <h1 class='firstHeading'>O metodě</h1>\n           <p class='lede'>Toj slovnik je <b>statičny, dokazovy wiki-eksperiment</b>: ne kopija oficialnogo slovnika, ale generovany atlas slovjanskyh srodnyh slov, praslovjanskyh korenjev i medžuslovjanskyh kandidatov.</p>\n\n           <table class='wikitable compact-table'>\n             <tr><th>Srodne strany zapisov</th><td>");
    push_str(&mut body, compact(n).as_str());
    push_str(&mut body, "</td><th>Slovjanske lemmaty v korpusu</th><td>");
    push_str(&mut body, compact(lemma_total).as_str());
    push_str(&mut body, "</td></tr>\n             <tr><th>Generovane formy s oficialnym sovpadenjem</th><td>");
    push_str(&mut body, compact(official).as_str());
    push_str(&mut body, "</td><th>Model sajta</th><td>prosty HTML + JSON, bez servera</td></tr>\n           </table>\n\n           <h2 id='kratko'>Kratko</h2>\n           <p>Vsaka strana pytaje odgovor na wiki-podobno vprašanje: <i>ako mnogo slovjanskyh językov kaže na tu ideju, kaka medžuslovjanska forma je najvěrojętnějša, i čemu?</i> Zato strany zapisov pokazyvajųt ne samo slovo, ale i srodne slova, semantične vęzi, etimologiju, sled pravil, kategorije i izvory.</p>\n\n           <h2 id='pipeline'>Kako nastaje zapis</h2>\n           <pre class='pipeline-diagram'>Wiktionary lemmaty → srodne grupy → praslovjanske pravila → kandidaty → uvěrjenost → wiki-strana</pre>\n           <ol>\n             <li><b>Izvlečenje lemmatov.</b> Iz Wiktionary sȯbiramy slovjanske lemmy — imenniky, infinitivy glagolov, pozitivne pridavniki i internacionalizmy — zajedno s etimologičnym korenjem.</li>\n             <li><b>Srodne grupy.</b> Lemmaty s tym že praslovjanskym prědkom ili s podobnym internacionalnym skeletom tvorę jednu grupu.</li>\n             <li><b>Rekonstrukcija.</b> Praslovjansky pravilny stroj davaje variantno-medžuslovjansku formu; medžuvětvovy konsensus iz modernyh językov davaje alternativy.</li>\n             <li><b>Ocěna dokaza.</b> Uvěrjenost raste s čislom językov i s pokrytjem trěh větvi: vȯzhod, zapad, jug.</li>\n             <li><b>Wiki-sloj.</b> Sajt dodavaje kategorije, portaly, backlinks, homografne strany, semantičny graf i statične indeksy.</li>\n           </ol>\n\n           <h2 id='citati-entry'>Kako čitati stranu zapisa</h2>\n           <ul>\n             <li><b>Oznaka</b> govori, koliko językov i větvi podpira formu, i či ona sovpadaje s oficialnym slovnikom.</li>\n             <li><b>Formy i kandidaty</b> pokazyvajųt alternativne pravopisy i rangy, ne samo poběditelja.</li>\n             <li><b>Srodne slova</b> sųt surovy dokaz po slovjanskyh větvah; to je najvažnějša čęsť strany.</li>\n             <li><b>Etimologija</b> veze zapis k praslovjanskoj rekonstrukciji ili internacionalnomu etimonu.</li>\n             <li><b>Sled pravil</b> je sled prověrky: koje pravilo proměnilo formu i kako.</li>\n             <li><b>Kategorije</b> i <b>portaly</b> pomagajų prěgledati slovnik kako wiki, ne samo kako polje iskanja.</li>\n           </ul>\n\n           <h2 id='wiki'>Wiki-navigacija</h2>\n           <p>Najbolje startne točky: <a href='special.html'>posebne strany</a>, <a href='all-pages.html'>Vse strany</a>, <a href='categories.html'>Kategorije</a>, <a href='portals.html'>językove portaly</a>, <a href='borrowings.html'>portal zaimok</a>, <a href='needs-review.html'>spis za prověrku</a>, <a href='site-stats.html'>statistiky sajta</a>, <a href='graph.html'>semantičny graf</a>, <a href='rules.html'>indeks pravil (zvukove zakony)</a>, <a href='proto-index.html'>praslovjanske lemmy s refleksami</a>, <a href='derivations.html'>odvodženja po sufiksah</a> i <a href='metrics.html'>statistiky točnosti</a>.</p>\n\n           <h2 id='validacija'>Validacija i granice</h2>\n           <p>");
    push_str(&mut body, compact(official).as_str());
    push_str(&mut body, " generovanyh slov sovpadaje s oficialnym medžuslovjanskim slovnikom. To je kontrola, ale ne jedin cilj: mnogo validnyh medžuslovjanskyh slov može byti synonymami, regionalnymi izborami ili novymi kandidami, ktoryh oficialny slovnik ne imaje.</p>\n           <p>Slabe strany sųt jasno označene: mala językova pokrytosť, nizka uvěrjenost, homografi, neoficialny stav i mašinno prěgibanje. Strana zato davaje <a href='");
    push_str(&mut body, REPO_URL);
    push_str(&mut body, "/issues'>linky problemov</a> i kuratorske noty.</p>\n\n           <h2 id='licencija'>Izvory i licencija</h2>\n           <p>Dokazy i etimologije: Wiktionary i narodny Wiktionary (CC BY-SA). Oficialny slovnik: interslavic-dictionary.com. Prěgibanje: <code>interslavic-rs</code>. Kod projekta: <a href='");
    push_str(&mut body, REPO_URL);
    push_str(&mut body, "'>MIT na GitHub</a>.</p>\n         </article>");
    assert(body@ =~= corpus_about_body(n, lemma_total, official));
    site_page("O metodě — medžuslovjansky generator", body.as_str(), 0)
}

/// What a build was made from.
pub struct BuildMeta {
    pub git: String,
    pub generated: String,
    pub total_entries: usize,
    pub lemma_total: usize,
}

/// The build stamp as JSON.
pub open spec fn build_json_spec(b: BuildMeta) -> Seq<char> {
    "{\n  \"generated\": "@ + json_str_spec(b.generated@) + ",\n  \"git\": "@ + json_str_spec(b.git@)
        + ",\n  \"entries\": "@ + decimal(b.total_entries as nat) + ",\n  \"lemmas\": "@ + decimal(
        b.lemma_total as nat,
    ) + "\n}\n"@
}

/// The build stamp (`build.json`): generation time, git revision, entry
/// and lemma counts.
pub fn build_json(build: &BuildMeta) -> (r: String)
    ensures
        r@ == build_json_spec(*build),
{
    let mut s = string_from("{\n  \"generated\": ");
    push_str(&mut s, json_str(build.generated.as_str()).as_str());
    push_str(&mut s, ",\n  \"git\": ");
    push_str(&mut s, json_str(build.git.as_str()).as_str());
    push_str(&mut s, ",\n  \"entries\": ");
    push_decimal(&mut s, build.total_entries);
    push_str(&mut s, ",\n  \"lemmas\": ");
    push_decimal(&mut s, build.lemma_total);
    push_str(&mut s, "\n}\n");
    s
}

/// What the raw-Slavic extraction recorded: how many Slavic pages it saw,
/// kept and dropped (by reason), with each count's share of the pages seen
/// as the report prints it (one decimal and `%`).
pub struct ExtractionStats {
    pub slavic_pages_seen: u64,
    pub kept: u64,
    pub dropped_redirect_no_senses: u64,
    pub dropped_multiword: u64,
    pub dropped_non_content_pos: u64,
    pub dropped_no_real_gloss: u64,
    /// All dropped pages.
    pub dropped_total: u64,
    pub kept_share: String,
    pub redirect_share: String,
    pub multiword_share: String,
    pub non_content_share: String,
    pub no_gloss_share: String,
}

/// One row of the extraction table.
pub open spec fn extraction_row(label: Seq<char>, n: u64, share: Seq<char>) -> Seq<char> {
    "<tr><th>"@ + label + "</th><td>"@ + decimal(n as nat) + "</td><td>"@ + share + "</td></tr>"@
}

/// The table of what the extraction kept and dropped.
pub open spec fn extraction_table(st: ExtractionStats) -> Seq<char> {
    "<table class='wikitable'><tr><th>Ekstrakcija (anglijsky dump)</th><th>Strany</th><th>Dělj</th></tr>"@
        + extraction_row("Slovjanske strany viděne"@, st.slavic_pages_seen, "100%"@)
        + extraction_row("Zadŕžane (vključene)"@, st.kept, st.kept_share@)
        + extraction_row("Odbrošene — prěnapravjenje (bez smyslov)"@, st.dropped_redirect_no_senses, st.redirect_share@)
        + extraction_row("Odbrošene — mnogoslovne / prazdne"@, st.dropped_multiword, st.multiword_share@)
        + extraction_row("Odbrošene — ne polnoznačna čęsť rěči"@, st.dropped_non_content_pos, st.non_content_share@)
        + extraction_row("Odbrošene — bez pravoj definicije"@, st.dropped_no_real_gloss, st.no_gloss_share@)
        + "</table>"@
}

/// The line that reconciles kept and dropped pages with the pages seen.
pub open spec fn extraction_summary(st: ExtractionStats) -> Seq<char> {
    "<p class='muted'>Zadŕžane ("@ + decimal(st.kept as nat) + ") + odbrošene ("@ + decimal(st.dropped_total as nat)
        + ") = viděne slovjanske strany ("@ + decimal(st.slavic_pages_seen as nat) + ").</p>"@
}

/// The extraction part of the coverage section.
pub open spec fn extraction_spec(st: Option<ExtractionStats>) -> Seq<char> {
    match st {
        Some(st) => extraction_table(st) + extraction_summary(st),
        None => "<p class='muted'>Statistika ekstrakcije ješče ne generovana (<code>data/raw-slavic-coverage.json</code>). Pokreni <code>extract-raw-slavic</code>.</p>"@,
    }
}

/// The site part of the coverage section.
pub open spec fn site_counts_spec(rendered: usize, deduped: usize, generated: usize, official_only: usize) -> Seq<char> {
    "<table class='wikitable'><tr><th>Na sajtu</th><th>Strany</th></tr>"@
        + "<tr><th>Srove atestacije (samo surove, R)</th><td>"@ + decimal(rendered as nat) + "</td></tr>"@
        + "<tr><th>Surove dublikovane (uže pokryte)</th><td>"@ + decimal(deduped as nat) + "</td></tr>"@
        + "<tr><th>Generovane srodne strany</th><td>"@ + decimal(generated as nat) + "</td></tr>"@
        + "<tr><th>Samo oficialne strany</th><td>"@ + decimal(official_only as nat) + "</td></tr>"@
        + "</table>"@
        + "<p class='muted'>Podrobny izvěst: <code>target/eval/raw-coverage.md</code> (komanda <code>coverage</code>).</p>"@
}

/// The opening of the coverage section.
pub open spec fn coverage_head() -> Seq<char> {
    "<h2 id='pokrytje'>Pokrytje slovjanskyh datasetov</h2>"@
        + "<p class='lede'>Čto znači „vse slovjanske Wiktionary dataset-y“: srovy tok iz anglijskoga Wiktextract-a (jednoslovne polnoznačne slova) + nativne ru/pl/cs izdanja za obogaćenje. Niže — koliko slov je vključeno i koliko izključeno, s pričinoju.</p>"@
}

fn push_extraction_row(s: &mut String, label: &str, n: u64, share: &str)
    ensures
        final(s)@ == old(s)@ + extraction_row(label@, n, share@),
{
    push_str(s, "<tr><th>");
    push_str(s, label);
    push_str(s, "</th><td>");
    push_decimal_u64(s, n);
    push_str(s, "</td><td>");
    push_str(s, share);
    push_str(s, "</td></tr>");
}

fn push_extraction_table(s: &mut String, st: &ExtractionStats)
    ensures
        final(s)@ == old(s)@ + extraction_table(*st),
{
    push_str(s, "<table class='wikitable'><tr><th>Ekstrakcija (anglijsky dump)</th><th>Strany</th><th>Dělj</th></tr>");
    push_extraction_row(s, "Slovjanske strany viděne", st.slavic_pages_seen, "100%");
    push_extraction_row(s, "Zadŕžane (vključene)", st.kept, st.kept_share.as_str());
    push_extraction_row(s, "Odbrošene — prěnapravjenje (bez smyslov)", st.dropped_redirect_no_senses, st.redirect_share.as_str());
    push_extraction_row(s, "Odbrošene — mnogoslovne / prazdne", st.dropped_multiword, st.multiword_share.as_str());
    push_extraction_row(s, "Odbrošene — ne polnoznačna čęsť rěči", st.dropped_non_content_pos, st.non_content_share.as_str());
    push_extraction_row(s, "Odbrošene — bez pravoj definicije", st.dropped_no_real_gloss, st.no_gloss_share.as_str());
    push_str(s, "</table>");
}

fn push_extraction_summary(s: &mut String, st: &ExtractionStats)
    ensures
        final(s)@ == old(s)@ + extraction_summary(*st),
{
    push_str(s, "<p class='muted'>Zadŕžane (");
    push_decimal_u64(s, st.kept);
    push_str(s, ") + odbrošene (");
    push_decimal_u64(s, st.dropped_total);
    push_str(s, ") = viděne slovjanske strany (");
    push_decimal_u64(s, st.slavic_pages_seen);
    push_str(s, ").</p>");
}

fn push_extraction(s: &mut String, stats: &Option<ExtractionStats>)
    ensures
        final(s)@ == old(s)@ + extraction_spec(*stats),
{
    match stats {
        Some(st) => {
            push_extraction_table(s, st);
            push_extraction_summary(s, st);
        },
        None => {
            push_str(s, "<p class='muted'>Statistika ekstrakcije ješče ne generovana (<code>data/raw-slavic-coverage.json</code>). Pokreni <code>extract-raw-slavic</code>.</p>");
        },
    }
}

/// The dataset-coverage section of the downloads page: what the extraction
/// kept and dropped (by reason, with shares), or a note that it has not run,
/// then how many raw, deduplicated, generated and official-only pages the
/// site has.
pub fn datasets_coverage_section(
    stats: &Option<ExtractionStats>,
    rendered: usize,
    deduped: usize,
    generated: usize,
    official_only: usize,
) -> (r: String)
    ensures
        r@ == coverage_head() + extraction_spec(*stats) + site_counts_spec(rendered, deduped, generated, official_only),
{
    let mut s = string_from("<h2 id='pokrytje'>Pokrytje slovjanskyh datasetov</h2>");
    push_str(&mut s, "<p class='lede'>Čto znači „vse slovjanske Wiktionary dataset-y“: srovy tok iz anglijskoga Wiktextract-a (jednoslovne polnoznačne slova) + nativne ru/pl/cs izdanja za obogaćenje. Niže — koliko slov je vključeno i koliko izključeno, s pričinoju.</p>");
    let ghost h = s@;
    push_extraction(&mut s, stats);
    let ghost e = s@;
    push_str(&mut s, "<table class='wikitable'><tr><th>Na sajtu</th><th>Strany</th></tr>");
    push_str(&mut s, "<tr><th>Srove atestacije (samo surove, R)</th><td>");
    push_decimal(&mut s, rendered);
    push_str(&mut s, "</td></tr>");
    push_str(&mut s, "<tr><th>Surove dublikovane (uže pokryte)</th><td>");
    push_decimal(&mut s, deduped);
    push_str(&mut s, "</td></tr>");
    push_str(&mut s, "<tr><th>Generovane srodne strany</th><td>");
    push_decimal(&mut s, generated);
    push_str(&mut s, "</td></tr>");
    push_str(&mut s, "<tr><th>Samo oficialne strany</th><td>");
    push_decimal(&mut s, official_only);
    push_str(&mut s, "</td></tr>");
    push_str(&mut s, "</table>");
    push_str(&mut s, "<p class='muted'>Podrobny izvěst: <code>target/eval/raw-coverage.md</code> (komanda <code>coverage</code>).</p>");
    assert(s@ =~= coverage_head() + extraction_spec(*stats) + site_counts_spec(rendered, deduped, generated, official_only));
    s
}

/// The body of the method page.
pub open spec fn about_body(n: usize, norm_rate: Seq<char>, exact_rate: Seq<char>, top3: Seq<char>) -> Seq<char> {
    "<article class='entry'>\n           <h1>O metodě</h1>\n           <p class='lede'>Toj slovnik ne je rųčno napisany — vsaka forma je <b>generovana</b> iz slovjanskyh dokazov i měrjena protiv oficialnogo medžuslovjanskogo slovnika.</p>\n\n           <h2>Dvostupnjovy model</h2>\n           <p>Za vsaky smysl:</p>\n           <ol>\n             <li><b>Konsensus izbira korenj.</b> Iz srodnyh slov v "@
        + "11"@ + " slovjanskyh językah glasujemo po <i>větvah</i> (izток / zapad / jug), da najveći język ne dominuje. Šest poddialektnyh grup s populacijnym vagom rěša, kotory korenj je najbolje medžuslovjansky.</li>\n             <li><b>Praslovjansko pravilo davaje formu.</b> Kǫda smysl je bez utečki povezany s praslovjanskoju rekonstrukcijeju (*word) črěz naslědnikov + glosų, determinističny stroj izvodi formų s pravilnymi variantnymi znakami (ě, ć/đ, å, ȯ, y), kotoryh moderne refleksy ne mogųt vȯzstanoviti.</li>\n           </ol>\n\n           <h2>Točnost (měrjeno)</h2>\n           <div class='statgrid'>\n             <div class='stat ok'><div class='statnum'>"@
        + exact_rate + "%</div><div class='statlbl'>povno točno</div></div>\n             <div class='stat'><div class='statnum'>"@
        + norm_rate + "%</div><div class='statlbl'>normalizovano — pŕvy izbor</div></div>\n             <div class='stat'><div class='statnum'>"@
        + top3 + "%</div><div class='statlbl'>pŕve 3</div></div>\n           </div>\n           <p class='muted'>Testovo množstvo: "@
        + compact_spec(n as nat) + " zapisov s ≥2 modernymi srodnymi slovami. Generator nikǫda ne vidi oficialnų formų — jedino srodne slova + čęsť rěči + glosų — tako da měrjenje je bez propuščanja. Vsako pravilo je zadŕžano jedino ako je izměrjeno pobolšanje (lěstvica odstranjenja).</p>\n\n           <h2>Poznaty prědel</h2>\n           <p>Okolo 38% ostatnyh razlik sųt <i>redakcijne</i> izbory (medžuslovjansky komitet izbral menšinny korenj) kotore se ne mogųt vȯzstanoviti iz modernyh srodnyh slov. Čestny algoritmičny prědel je okolo 45–48% točno.</p>\n\n           <h2>Izvory i licencija</h2>\n           <p>Oficialny slovnik: interslavic-dictionary.com. Praslovjanske rekonstrukcije: Wiktionary (CC BY-SA). Formy prěgibanja: interslavic-rs. Kod: <a href='"@
        + REPO_URL@ + "'>MIT</a>.</p>\n         </article>"@
}

/// The method page: how the forms are generated and measured, with the
/// exact, normalized and top-three match rates (each as printed, one
/// decimal) over `n` entries.
pub fn about_page(n: usize, norm_rate: &str, exact_rate: &str, top3: &str) -> (r: String)
    ensures
        r@ == site_page_spec("O metodě — medžuslovjansky generator"@, about_body(n, norm_rate@, exact_rate@, top3@), 0),
{
    let mut body = string_from("<article class='entry'>\n           <h1>O metodě</h1>\n           <p class='lede'>Toj slovnik ne je rųčno napisany — vsaka forma je <b>generovana</b> iz slovjanskyh dokazov i měrjena protiv oficialnogo medžuslovjanskogo slovnika.</p>\n\n           <h2>Dvostupnjovy model</h2>\n           <p>Za vsaky smysl:</p>\n           <ol>\n             <li><b>Konsensus izbira korenj.</b> Iz srodnyh slov v ");
    push_str(&mut body, "11");
    push_str(&mut body, " slovjanskyh językah glasujemo po <i>větvah</i> (izток / zapad / jug), da najveći język ne dominuje. Šest poddialektnyh grup s populacijnym vagom rěša, kotory korenj je najbolje medžuslovjansky.</li>\n             <li><b>Praslovjansko pravilo davaje formu.</b> Kǫda smysl je bez utečki povezany s praslovjanskoju rekonstrukcijeju (*word) črěz naslědnikov + glosų, determinističny stroj izvodi formų s pravilnymi variantnymi znakami (ě, ć/đ, å, ȯ, y), kotoryh moderne refleksy ne mogųt vȯzstanoviti.</li>\n           </ol>\n\n           <h2>Točnost (měrjeno)</h2>\n           <div class='statgrid'>\n             <div class='stat ok'><div class='statnum'>");
    push_str(&mut body, exact_rate);
    push_str(&mut body, "%</div><div class='statlbl'>povno točno</div></div>\n             <div class='stat'><div class='statnum'>");
    push_str(&mut body, norm_rate);
    push_str(&mut body, "%</div><div class='statlbl'>normalizovano — pŕvy izbor</div></div>\n             <div class='stat'><div class='statnum'>");
    push_str(&mut body, top3);
    push_str(&mut body, "%</div><div class='statlbl'>pŕve 3</div></div>\n           </div>\n           <p class='muted'>Testovo množstvo: ");
    push_str(&mut body, compact(n).as_str());
    push_str(&mut body, " zapisov s ≥2 modernymi srodnymi slovami. Generator nikǫda ne vidi oficialnų formų — jedino srodne slova + čęsť rěči + glosų — tako da měrjenje je bez propuščanja. Vsako pravilo je zadŕžano jedino ako je izměrjeno pobolšanje (lěstvica odstranjenja).</p>\n\n           <h2>Poznaty prědel</h2>\n           <p>Okolo 38% ostatnyh razlik sųt <i>redakcijne</i> izbory (medžuslovjansky komitet izbral menšinny korenj) kotore se ne mogųt vȯzstanoviti iz modernyh srodnyh slov. Čestny algoritmičny prědel je okolo 45–48% točno.</p>\n\n           <h2>Izvory i licencija</h2>\n           <p>Oficialny slovnik: interslavic-dictionary.com. Praslovjanske rekonstrukcije: Wiktionary (CC BY-SA). Formy prěgibanja: interslavic-rs. Kod: <a href='");
    push_str(&mut body, REPO_URL);
    push_str(&mut body, "'>MIT</a>.</p>\n         </article>");
    site_page("O metodě — medžuslovjansky generator", body.as_str(), 0)
}

} // verus!
