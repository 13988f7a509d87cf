//! The stylesheet and the client-side scripts of the form index and the
//! text checker, with the two pages that load them.
//!
//! The form-index script carries two values that the exporter fixes: how
//! many shards the form index is split into and the character folds of the
//! lookup key. Both are filled into the script's placeholders, so that the
//! browser routes a query exactly as the exporter did.

use vstd::prelude::*;
use crate::pages::{site_page, site_page_spec};
use crate::search::{comma_join, lemma_comma_join_push};
use crate::split::{replace_spec, replace_str};
use crate::strs::{decimal, push_decimal, push_str};

verus! {

/// The site's own rules, appended to the MediaWiki base stylesheet.
pub const EXTRA_CSS: &'static str = "\n:root{--border:#a2a9b1;--line:#c8ccd1;--link:#36c;--visited:#6b4ba1;--text:#202122;--muted:#54595d;--page:#f8f9fa;--th:#eaecf0}\nhtml,body{margin:0;padding:0;background:var(--page);color:var(--text);font:14px/1.6 -apple-system,'Segoe UI',Helvetica,Arial,sans-serif}\na{color:var(--link);text-decoration:none}\na:visited{color:var(--visited)}\na:hover{text-decoration:underline}\nmain{max-width:1160px;margin:0 auto;background:#fff;padding:1.1rem 1.6rem 2.4rem;border-left:1px solid var(--line);border-right:1px solid var(--line);min-height:70vh}\n.serif{font-family:Georgia,'Linux Libertine','Times New Roman',serif}\n.site-header{background:#fff;border-bottom:1px solid var(--border);padding:.45rem 1.2rem;display:flex;align-items:baseline;gap:1rem;flex-wrap:wrap}\n.brand{font-family:Georgia,'Linux Libertine','Times New Roman',serif;font-size:1.4rem;font-weight:normal;color:var(--text);text-decoration:none}\n.tagline{color:var(--muted);font-size:.88rem}\n.nav{margin-left:auto;display:flex;gap:1.1rem}\n.nav a{color:var(--link);font-size:.92rem}\n.site-footer{max-width:1160px;margin:0 auto;background:#fff;border-left:1px solid var(--line);border-right:1px solid var(--line);border-top:1px solid var(--line);padding:.9rem 1.6rem 1.4rem;color:var(--muted);font-size:.88rem}\n\n/* Headings — serif with the MediaWiki underline. */\nh1.firstHeading,.page-title,.hero h1,.entry>h1,.about h1{font-family:Georgia,'Linux Libertine','Times New Roman',serif;font-weight:normal;font-size:1.9rem;line-height:1.25;margin:0 0 .35rem;border-bottom:1px solid var(--border);padding-bottom:.12em;color:var(--text)}\nh2{font-family:Georgia,'Linux Libertine','Times New Roman',serif;font-weight:normal;font-size:1.5rem;margin:1.1em 0 .3em;border-bottom:1px solid var(--border);padding-bottom:.08em}\nh3,h4{font-family:Georgia,'Linux Libertine','Times New Roman',serif;font-weight:normal;margin:.7em 0 .2em}\n\n/* Tables. */\n.wikitable{background:var(--page);color:var(--text);border:1px solid var(--border);border-collapse:collapse;width:100%;margin:.6em 0;font-size:.95em}\n.wikitable th,.wikitable td{border:1px solid var(--border);padding:.3em .55em;text-align:left;vertical-align:top}\n.wikitable th,.wikitable thead th{background:var(--th);font-weight:bold}\n.inflection-table th{white-space:nowrap}\n.compact-table td.lc{color:var(--muted);white-space:nowrap}\n.translations-table td.lc{color:var(--muted);white-space:nowrap;width:9em}\n.example-official{border-left:3px solid var(--border);background:var(--page);padding:.45rem .75rem;margin:.5rem 0;font-style:italic}\n.attr-official{font-size:.82em;margin:.35rem 0 0}\n.top-candidate{background:#eafaef}\ntr:target{background:#fff3bf;outline:2px solid #f0c000}\n.score{font-variant-numeric:tabular-nums}\n\n/* Search. */\n.hero{border-bottom:1px solid var(--border);padding-bottom:1rem;margin-bottom:1rem}\n.lede{color:var(--muted);max-width:72ch}\n.searchbox{margin:.9rem 0}\n#q{width:100%;box-sizing:border-box;padding:.45rem .55rem;font-size:1.05rem;border:1px solid var(--border);border-radius:2px;background:#fff;color:var(--text)}\n.results{margin-top:.3rem}\n.hit{display:block;padding:.35em .55em;border:1px solid var(--line);border-top:none;text-decoration:none;color:var(--text)}\n.hit:first-child{border-top:1px solid var(--line)}\n.hit:hover{background:#eaf3ff;text-decoration:none}\n.hit b{color:var(--link)}\n.hit .hp{color:var(--muted);font-size:.8em;margin:0 .4em}\n.hit .hg{color:var(--muted)}\n.hit .hsrc{font-size:.8em;color:var(--muted);background:var(--th);border:1px solid var(--line);border-radius:2px;padding:.02rem .35rem;margin-left:.35em;white-space:nowrap}\n\n/* Stat cards. */\n.statgrid{display:grid;grid-template-columns:repeat(auto-fit,minmax(150px,1fr));gap:.7rem;margin:1rem 0}\n.stat{border:1px solid var(--border);background:var(--page);padding:.6rem .7rem;text-align:center}\n.stat.ok{background:#eafaef}\n.statnum{font-size:1.45rem;font-family:Georgia,'Linux Libertine','Times New Roman',serif}\n.statlbl{color:var(--muted);font-size:.85em}\n\n/* Entry header line. */\n.page-title{margin-bottom:.4rem}\n.headword-block{border:1px solid var(--line);background:var(--page);padding:.55rem .8rem;margin:.4rem 0 1rem}\n.headmeta{display:flex;gap:.45em;flex-wrap:wrap;align-items:center}\n.def{margin:.55em 0 0}\n.badge{display:inline-block;background:var(--th);border:1px solid var(--line);border-radius:2px;padding:.05rem .35rem;font-size:.85em;color:var(--text)}\n.pill{display:inline-block;border:1px solid var(--line);border-radius:2px;padding:.03rem .4rem;font-size:.8em;background:var(--th);white-space:nowrap}\n.pill.ok{background:#d5f4d5;border-color:#9cce9c}\n.pill.bad{background:#f6dada;border-color:#e0a0a0}\n.pill.warn{background:#fbeecb;border-color:#e3cd86}\n.pill.info,.pill.src-consensus{background:#dbe8fb;border-color:#a7c4ee}\n.pill.src-proto{background:#ece3fb;border-color:#c1abef}\n.pill.src-official{background:#d5f4d5;border-color:#9cce9c}\n.reliability{display:inline-block;border:1px solid var(--line);border-radius:2px;padding:.03rem .4rem;font-size:.8em}\n.reliability.conf-high{background:#d5f4d5}\n.reliability.conf-med{background:#fbeecb}\n.reliability.conf-low{background:#f6dada}\n\n/* Banners → MediaWiki notice look. */\n.banner{border:1px solid var(--border);border-left:6px solid var(--border);background:var(--page);padding:.6rem .8rem;margin:.85rem 0}\n.banner.ok{border-left-color:#14866d}\n.banner.warn{border-left-color:#f2a900}\n.banner.info{border-left-color:var(--link)}\n\n/* Collapsible sections. */\n.sec{border:1px solid var(--line);margin:.7em 0;padding:0 .8rem .55rem}\n.sec>summary{margin:0 -.8rem;padding:.4em .8rem;background:var(--page);border-bottom:1px solid var(--line);cursor:pointer;font-family:Georgia,'Linux Libertine','Times New Roman',serif;font-size:1.15rem}\n.sec[open]>summary{margin-bottom:.5em}\n\n/* Evidence. */\n.branch-grid{display:grid;grid-template-columns:repeat(auto-fit,minmax(240px,1fr));gap:1rem}\n.branch-box h4{margin:.3em 0;font-size:1.05rem}\n\n.mention,.Latn{font-style:italic;font-weight:bold}\n.muted,.qualifier{color:var(--muted)}\n.calib{font-style:italic}\n.foot{color:var(--muted);font-size:.88em;margin-top:1.4rem;border-top:1px solid var(--line);padding-top:.6rem}\n.rule-trace li{margin:.35em 0}\n.rule-id{background:var(--th);border:1px solid var(--line);padding:.02em .3em;font-size:.85em}\n.notice{border:1px solid var(--border);background:var(--page);padding:.6rem .8rem;margin:.6rem 0}\n/* Sidebar spotlight + search strength. */\n#spotlight{margin:.2rem 0 .5rem}\n.spotlight-word{display:inline-block;font-family:Georgia,'Linux Libertine','Times New Roman',serif;font-size:1.35rem}\n.spot-strength{margin-top:.45rem;font-size:.9em;color:var(--muted)}\n.portal-box button{margin-top:.4rem;padding:.3rem .7rem;border:1px solid var(--link);background:var(--link);color:#fff;border-radius:2px;cursor:pointer;font-size:.9em}\n.portal-box button:hover{background:#447ff5}\n.hit .hs,.hit .ha,.hit .hl{font-size:.85em;white-space:nowrap}.hit .ha,.hit .hl{color:var(--muted)}\n.wiki-main-list .wikitable td:nth-child(4){white-space:nowrap}\n@media (max-width:720px){main,.site-footer{padding-left:.8rem;padding-right:.8rem;border-left:none;border-right:none}.wikitable{font-size:.9em}}\n\n/* Native-Wiktionary enrichment: etymology sources, extra senses, semantic chips. */\na.ext{font-size:.78em;color:var(--muted);border:1px solid var(--line);border-radius:2px;padding:0 .25em;margin-left:.25em;white-space:nowrap}\na.ext:hover{color:var(--link);text-decoration:none;border-color:var(--link)}\n.etym-sources{display:grid;grid-template-columns:repeat(auto-fit,minmax(280px,1fr));gap:.8rem;margin:.4rem 0}\n.etym-src,.src-block{border:1px solid var(--line);border-left:3px solid var(--border);background:var(--page);padding:.5rem .7rem;border-radius:2px}\n.src-block{margin:.6rem 0}\n.src-head{font-weight:bold;margin-bottom:.35rem}\n.src-head .lc{color:var(--muted);font-weight:normal;margin-right:.4em}\n.etym-src p{margin:.25em 0;font-size:.95em}\n.conn{margin:.5rem 0}\n.conn h5{margin:.3em 0;font-size:.82rem;color:var(--muted);text-transform:uppercase;letter-spacing:.03em}\n.conn ol{margin:.2em 0 .2em 1.2em}\n.conn ul.quotes{list-style:none;margin:.2em 0 .4em 0;padding:0}\n.conn li.quote{font-size:.92em;color:var(--muted);font-style:italic;margin:.15em 0;border-left:2px solid var(--line);padding-left:.5em}\n.conn li.quote .cite{font-style:normal;font-size:.9em}\n.chips{display:flex;flex-wrap:wrap;gap:.3rem}\na.chip{display:inline-block;background:var(--th);border:1px solid var(--line);border-radius:10px;padding:.05em .55em;font-size:.9em;color:var(--text)}\na.chip:hover{background:#eaf3ff;border-color:var(--link);text-decoration:none}\na.chip.xref{border-color:var(--link);color:var(--link);background:#eaf3ff}\na.chip.xref::before{content:'→\\00a0';opacity:.65}\na.chip.xref:hover{background:var(--link);color:#fff}\na.redlink{color:#ba0000!important;border-color:#d33!important;background:#fff5f5!important}\na.redlink::after{content:' ?';font-size:.8em}\n.entry-tabs{display:flex;gap:.2rem;border-bottom:1px solid var(--border);margin:.1rem 0 .75rem;flex-wrap:wrap}\n.entry-tabs a{display:inline-block;padding:.25rem .65rem;border:1px solid var(--border);border-bottom:none;background:var(--th);color:var(--link);border-radius:2px 2px 0 0}\n.entry-tabs a.active{background:#fff;color:var(--text);font-weight:bold;position:relative;top:1px;text-decoration:none}\n.catlinks{border:1px solid var(--line);background:var(--page);padding:.35rem .55rem;margin:1.2rem 0 .7rem;font-size:.92em}.catlinks a{color:var(--link);background:none;border:0;padding:0}.catlinks a:visited{color:var(--visited)}.word-index td:first-child{white-space:nowrap}.filter-grid{display:grid;grid-template-columns:repeat(auto-fit,minmax(150px,1fr));gap:.6rem;border:1px solid var(--line);background:var(--page);padding:.7rem;margin:.8rem 0}.filter-grid label{font-size:.9em;color:var(--muted)}.filter-grid select,.filter-grid input{width:100%;box-sizing:border-box;margin-top:.15rem;padding:.3rem;border:1px solid var(--border);background:#fff}.hq{color:var(--muted);font-size:.82em;margin-left:.4em}.graph-list .badge{min-width:4.5em;text-align:center}.dab{border-left:6px solid #36c}.reference-list li{margin:.25rem 0}.alphabet-index a{display:inline-block;margin:.05rem .35rem .05rem 0}.stat-box h3{font-size:1.05rem;margin:.2rem 0;border-bottom:1px solid var(--line)}.index-summary th{width:24%}.category-list{columns:2;column-gap:2rem}.entry-infobox{float:right;width:260px;margin:.2rem 0 .9rem 1rem;font-size:.9em}.entry-infobox caption{font-family:Georgia,serif;font-weight:bold;padding:.25rem}.entry-grid{display:grid;grid-template-columns:minmax(0,1fr) 320px;gap:1.15rem;align-items:start}.entry-main{min-width:0}.entry-rail{position:sticky;top:.75rem;max-height:calc(100vh - 1.5rem);overflow:auto;align-self:start}.entry-rail .entry-infobox{float:none;width:auto;margin:0 0 .8rem;font-size:.9em}.rail-box{border:1px solid var(--line);background:var(--page);padding:.55rem .65rem;margin:0 0 .8rem;overflow-x:auto}.rail-box h2{font-size:1.18rem;margin:.05rem 0 .45rem}.rail-box .wikitable{font-size:.86em;margin:.2rem 0}.rail-box .wikitable th,.rail-box .wikitable td{padding:.22rem .32rem}.pipeline-diagram{border:1px solid var(--line);background:var(--page);padding:.55rem;white-space:pre-wrap}.graph-filter button{margin:.15rem .25rem .15rem 0;border:1px solid var(--line);background:var(--page);color:var(--link);padding:.2rem .45rem}.source-table th{width:10rem}@media(max-width:1150px){.entry-grid{display:block}.entry-rail{position:static;max-height:none;overflow:visible}.entry-rail .entry-infobox{margin:.6rem 0}.rail-box{margin:.8rem 0}}@media(max-width:900px){.entry-infobox{float:none;width:auto;margin:.6rem 0}}\n\n/* ===== V-next layout: sticky header search + sidebar + always-open sections ===== */\n.site-header{position:sticky;top:0;z-index:50;align-items:center;gap:.8rem 1rem;padding:.4rem 1rem}\n.brand{font-size:1.2rem;white-space:nowrap}\n.brand-sub{color:var(--muted)}\n.hsearch{position:relative;flex:1 1 300px;max-width:620px;display:flex;margin:0}\n.hsearch input{flex:1;min-width:0;padding:.4rem .6rem;font-size:1rem;border:1px solid var(--border);border-right:none;border-radius:2px 0 0 2px;background:#fff;color:var(--text)}\n.hsearch input:focus{outline:2px solid #a8c7ff;outline-offset:-1px}\n.hsearch-go{padding:0 .85rem;border:1px solid var(--link);background:var(--link);color:#fff;border-radius:0 2px 2px 0;cursor:pointer;font-size:1.05rem;line-height:1}\n.hsearch-go:hover{background:#447ff5}\n.dropdown{display:none;position:absolute;top:100%;left:0;right:0;background:#fff;border:1px solid var(--border);border-top:none;max-height:72vh;overflow-y:auto;z-index:60;box-shadow:0 8px 20px rgba(0,0,0,.14)}\n.dropdown .hit{display:block;padding:.35rem .6rem;border-bottom:1px solid var(--line);color:var(--text);text-decoration:none}\n.dropdown .hit:hover{background:#eaf3ff}\n.dropdown .hit.more{text-align:center;font-weight:bold;color:var(--link);background:var(--th)}\n.nav{margin-left:auto;gap:.9rem}\n.layout{max-width:1400px;margin:0 auto;display:grid;grid-template-columns:232px minmax(0,1fr);align-items:start}\n.sidebar{position:sticky;top:50px;align-self:start;max-height:calc(100vh - 50px);overflow-y:auto;padding:1rem .85rem;border-right:1px solid var(--line);font-size:.9rem}\nmain{max-width:940px;margin:0;padding:1rem 1.9rem 2.6rem;border:none}\n.side-box{margin-bottom:1.15rem}\n.side-h{font-weight:bold;text-transform:uppercase;font-size:.7rem;letter-spacing:.05em;color:var(--muted);border-bottom:1px solid var(--line);padding-bottom:.2rem;margin-bottom:.35rem}\n.toc a{display:block;padding:.13rem 0;color:var(--link);line-height:1.3}\n.toc a.toc-h3{padding-left:.9rem;font-size:.88em}\n.side-link{display:block;width:100%;text-align:left;padding:.22rem 0;color:var(--link);background:none;border:none;cursor:pointer;font:inherit;text-decoration:none}\n.side-link:hover{text-decoration:underline}\n#spotlight .spotlight-word{font-family:Georgia,serif;font-size:1.15rem;display:block}\n.entry section{margin:1.3rem 0}\n.entry section>h2{font-family:Georgia,'Linux Libertine',serif;font-weight:normal;font-size:1.35rem;margin:.1em 0 .45em;border-bottom:1px solid var(--border);padding-bottom:.1em;scroll-margin-top:58px}\n.headword-block{margin:.2rem 0 .5rem}\n.headmeta{display:flex;flex-wrap:wrap;gap:.4rem;align-items:center;margin-bottom:.3rem}\n.banner{margin:.5rem 0}\n.home-hero{border-bottom:1px solid var(--border);padding-bottom:.7rem;margin-bottom:1rem}\n.home-cols{display:grid;grid-template-columns:minmax(0,1fr) 236px;gap:1.5rem;align-items:start}\n.home-aside .side-box{border:1px solid var(--line);border-radius:2px;padding:.5rem .7rem}\n.search-page #page-results .hit{display:block;padding:.45rem .3rem;border-bottom:1px solid var(--line);color:var(--text);text-decoration:none}\n.search-page #page-results .hit:hover{background:#eaf3ff}\n.search-page .hit .hp{color:var(--muted);margin:0 .5em;font-size:.9em}\n.search-page .hit .hg{color:var(--muted)}\n@media (max-width:900px){.layout{grid-template-columns:1fr}.sidebar{position:static;max-height:none;border-right:none;border-bottom:1px solid var(--line)}main{max-width:none;padding:1rem}.home-cols{grid-template-columns:1fr}.nav{width:100%;order:3}}\n\n/* Strict wiki link styling: links are plain blue text, never button/chip pills. */\n*{border-radius:0!important}\na.ext,a.chip,a.chip.xref,a.redlink,.entry-tabs a,.hit,.dropdown .hit,.dropdown .hit.more,.search-page #page-results .hit,.stat-card{display:inline!important;background:none!important;border:0!important;box-shadow:none!important;padding:0!important;color:var(--link)!important;text-decoration:none!important}\na.ext:hover,a.chip:hover,a.chip.xref:hover,a.redlink:hover,.entry-tabs a:hover,.hit:hover,.dropdown .hit:hover,.search-page #page-results .hit:hover,.stat-card:hover{background:none!important;color:var(--link)!important;text-decoration:underline!important}\na.chip.xref::before,a.redlink::after{content:''!important}.chips{display:block}.chips a{margin-right:.7em}.entry-tabs{display:block;border-bottom:1px solid var(--border);padding-bottom:.2rem}.entry-tabs a{margin-right:1em}.entry-tabs a.active{font-weight:bold;position:static;color:var(--text)!important}.results .hit,.dropdown .hit,.search-page #page-results .hit{display:block!important;padding:.18rem 0!important;border-bottom:1px solid var(--line)!important;color:var(--text)!important}.results .hit b,.dropdown .hit b,.search-page #page-results .hit b{color:var(--link)}button,.portal-box button,.graph-filter button,.hsearch-go,.side-link{background:none!important;border:0!important;box-shadow:none!important;color:var(--link)!important;padding:0!important;font:inherit!important;cursor:pointer!important}.hsearch-go{padding:0 .35rem!important;border:1px solid var(--border)!important;border-left:0!important}.hsearch-go:hover,button:hover,.portal-box button:hover,.graph-filter button:hover,.side-link:hover{text-decoration:underline!important;background:none!important;color:var(--link)!important}.badge,.pill,.reliability{border-radius:0!important}.cat-more summary{color:var(--link);cursor:pointer}.cat-more summary:hover{text-decoration:underline}\n\n/* Wider readable canvas and sticky rails that stay below the fixed header. */\n.layout{max-width:1680px}\nmain{max-width:none;width:100%;box-sizing:border-box;padding-left:2rem;padding-right:2rem}\n.site-footer{max-width:1680px;box-sizing:border-box}\n.sidebar{top:56px;max-height:calc(100vh - 56px)}\n.bottom-meta{border-top:1px solid var(--line);border-bottom:1px solid var(--line);margin:1.2rem 0 .8rem;padding:.35rem 0}.bottom-meta>summary{color:var(--link);cursor:pointer}.bottom-meta>summary:hover{text-decoration:underline}.bottom-meta section{margin:.75rem 0}.bottom-meta h2{font-size:1.15rem}\n@media (min-width:1151px){.entry-grid{grid-template-columns:minmax(0,1fr) 340px;gap:1.4rem}.entry-rail{position:sticky;top:64px;max-height:calc(100vh - 76px);overflow-y:auto;overflow-x:hidden}}\n@media (max-width:900px){main{width:auto;padding-left:1rem;padding-right:1rem}}\n\n";

/// The form-index client: folding, shard routing with its self-test, the
/// shard fetch and the rendering of one analysis. `__SHARDS__` and
/// `__FOLD_MAP__` stand for the exporter's values.
pub const FORMS_JS: &'static str = "\nfunction escHtml(s){return String(s).replace(/&/g,'&amp;').replace(/</g,'&lt;').replace(/>/g,'&gt;').replace(/\"/g,'&quot;').replace(/'/g,'&#39;');}\nfunction isvFold(s){s=s.toLowerCase().trim();const M=__FOLD_MAP__;let out='';for(const c of s){out+=(M[c]!==undefined)?M[c]:c;}return out;}\nlet routerOk=null;\nasync function routerSelftest(base){if(routerOk!==null)return routerOk;try{const j=await fetch(base+'api/router-selftest.json').then(r=>r.json());routerOk=j.shards===__SHARDS__&&j.samples.every(([form,key,shard])=>isvFold(form)===key&&fnv1a32(key)%__SHARDS__===shard);}catch(e){routerOk=false;}if(!routerOk){console.error('router selftest FAILED: JS fold/router drifted from the exporter');}return routerOk;}\nfunction fnv1a32(s){const b=new TextEncoder().encode(s);let h=0x811c9dc5>>>0;for(const x of b){h^=x;h=Math.imul(h,16777619)>>>0;}return h>>>0;}\nconst shardCache={};\nasync function isvShard(base,n){if(shardCache[n])return shardCache[n];shardCache[n]=fetch(base+'api/forms/'+n+'.json').then(r=>r.ok?r.json():{records:{}}).catch(()=>({records:{}}));return shardCache[n];}\nasync function isvLookup(base,q){const ok=await routerSelftest(base);const key=isvFold(q);if(!ok){return{key:key,recs:[],selftestFailed:true};}const shard=fnv1a32(key)%__SHARDS__;const j=await isvShard(base,shard);return{key:key,recs:(j.records&&j.records[key])||[]};}\nfunction recHtml(base,rec){const[form,lemma,id,pos,analyses,,status,prob,gloss]=rec;\n const st=status==='generated'?('<span class=\"pill\">mašinova rekonstrukcija p='+(prob==null?'?':prob.toFixed(2))+'</span>'):('<span class=\"pill src-official\">'+escHtml(status)+'</span>');\n const an=analyses.length?('<span class=\"muted\">'+escHtml(analyses.join(', '))+'</span>'):'<span class=\"muted\">(citatna forma)</span>';\n return '<li><b>'+escHtml(form)+'</b> — <a href=\"'+base+'entry/'+id+'.html\">'+escHtml(lemma)+'</a> <span class=\"badge pos\">'+escHtml(pos)+'</span> '+an+' '+st+' <span class=\"muted\">'+escHtml(gloss)+'</span></li>';}\n";

/// The form-lookup page up to the shard count.
pub const FORMS_PAGE_HEAD: &'static str = "<article class='entry'><h1 class='firstHeading'>Iskanje form</h1><p class='lede'>Vpiši kojukoli <b>fleksijnu formu</b> (ne tolika lemmu) — na priklad <span class='mention'>pomoćnogo</span>, <span class='mention'>ljudi</span>, <span class='mention'>piše</span> — i vidiš vse analizy: lemmu, padež/čislo/rod, i stranicu zapisa.</p><p><input id='formq' type='search' placeholder='forma…' style='min-width:16em' onkeydown='if(event.key===String.fromCharCode(69,110,116,101,114))go()'> <button onclick='go()'>Iskaj</button></p><div id='out'></div><p class='muted'>Iste dane služęt strojam: <code>api/forms/&lt;n&gt;.json</code> (indeks razděljeny na ";

/// The form-lookup page between the shard count and the script.
pub const FORMS_PAGE_MID: &'static str = " častij), <code>api/lemmas.json</code>, <code>api/meta.json</code>, <a href='api/agent-guide.md'>api/agent-guide.md</a>.</p><script>";

/// The form-lookup page after the script.
pub const FORMS_PAGE_TAIL: &'static str = "async function go(){const q=document.getElementById('formq').value;if(!q)return;const r=await isvLookup('',q);const out=document.getElementById('out');if(r.selftestFailed){out.innerHTML='<p class=\"notice\">Samoprověrka routera ne prošla — klient sę ne shoduje s eksporterom (vidi konzolų). Iskanje je zaprěno da ne davaje krive rezultaty.</p>';return;}if(!r.recs.length){out.innerHTML='<p>Ničto ne najdeno za ključ <b>'+escHtml(r.key)+'</b>. (Nepoznata forma ili mašinovo prědloženje bez zapisa.)</p>';return;}out.innerHTML='<p>Ključ: <b>'+escHtml(r.key)+'</b>, '+r.recs.length+' analiz:</p><ul>'+r.recs.map(x=>recHtml('',x)).join('')+'</ul>';}const p=new URLSearchParams(location.search).get('q');if(p){document.getElementById('formq').value=p;go();}</script></article>";

/// The text-check page up to the script.
pub const TEXT_CHECK_HEAD: &'static str = "<article class='entry'><h1 class='firstHeading'>Prověrka teksta</h1><p class='lede'>Vstavi medžuslovjansky tekst — vsaky token bųde prověrjeny v slovniku i v polnom indeksu form. Sinje = poznato, žėlta obvodka = mašinova rekonstrukcija, čŕveno = nepoznato, ⚠ = semantična past.</p><p><textarea id='t' rows='6' style='width:100%'></textarea></p><p><button onclick='checkText()'>Prověri</button> <span class='muted'>CLI-blizenec: <code>cargo run -- check-text tekst.txt --json</code> (dodatno davaje predloženja za nepoznate tokeny).</span></p><div id='out'></div><script>";

/// The text-check page after the script.
pub const TEXT_CHECK_TAIL: &'static str = "let notes=null;async function getNotes(){if(notes)return notes;notes=fetch('api/notes.json').then(r=>r.ok?r.json():{}).catch(()=>({}));return notes;}async function checkText(){const text=document.getElementById('t').value;const toks=text.match(/\\p{L}+(?:-\\p{L}+)*/gu)||[];const out=document.getElementById('out');out.innerHTML='<p>Prověrjanje…</p>';const nts=await getNotes();const parts=[];let i=0;while(i<toks.length){const tok=toks[i];if(i+1<toks.length){const bi=await isvLookup('',tok+' '+toks[i+1]);if(bi.selftestFailed){out.innerHTML='<p class=\"notice\">Samoprověrka routera ne prošla — prověrka je zaprěna (vidi konzolų).</p>';return;}if(bi.recs.length){parts.push(render(tok+' '+toks[i+1],bi.recs,nts,bi.key));i+=2;continue;}}const r=await isvLookup('',tok);if(r.selftestFailed){out.innerHTML='<p class=\"notice\">Samoprověrka routera ne prošla — prověrka je zaprěna (vidi konzolų).</p>';return;}parts.push(render(tok,r.recs,nts,r.key));i+=1;}out.innerHTML='<p>'+parts.join(' ')+'</p><p class='+String.fromCharCode(39)+'muted'+String.fromCharCode(39)+'>Klikni slovo za polnu analizu.</p>';}function render(tok,recs,nts,key){const note=nts&&nts[key];if(!recs.length)return '<a class=\"chip redlink\" href=\"forms.html?q='+encodeURIComponent(tok)+'\" title=\"nepoznato\">'+escHtml(tok)+'</a>';const gen=recs.every(r=>r[6]==='generated');let ttl=gen?('mašinova rekonstrukcija p='+(recs[0][7]==null?'?':recs[0][7].toFixed(2))):recs.map(r=>r[1]+' ('+(r[4].join(', ')||'lemma')+')').slice(0,4).join('; ');if(note)ttl='⚠ '+note.warning+(note.prefer&&note.prefer.length?' Prefer: '+note.prefer.join(', ')+'.':'')+' — '+ttl;const style=gen?' style=\"border-color:#c90\"':(note?' style=\"border-color:#c33\"':'');return '<a class=\"chip xref\" href=\"forms.html?q='+encodeURIComponent(tok)+'\" title=\"'+escHtml(ttl)+'\"'+style+'>'+(note?'⚠':'')+escHtml(tok)+'</a>';}</script></article>";

/// The stylesheet: the base sheet, a newline, then the site's own rules.
pub fn css(base: &str) -> (r: String)
    ensures
        r@ == base@ + "\n"@ + EXTRA_CSS@,
{
    let mut s = String::new();
    push_str(&mut s, base);
    push_str(&mut s, "\n");
    push_str(&mut s, EXTRA_CSS);
    s
}

/// One fold of the lookup key as a JavaScript object entry: `'from':'to'`.
pub open spec fn fold_entry(from: Seq<char>, to: Seq<char>) -> Seq<char> {
    "'"@ + from + "':'"@ + to + "'"@
}

/// The fold entries, in the order of the folds.
pub open spec fn fold_entries(folds: Seq<(String, String)>) -> Seq<Seq<char>> {
    Seq::new(folds.len(), |i: int| fold_entry(folds[i].0@, folds[i].1@))
}

/// The fold table as a JavaScript object literal.
pub open spec fn fold_map_spec(folds: Seq<(String, String)>) -> Seq<char> {
    "{"@ + comma_join(fold_entries(folds)) + "}"@
}

/// The form-index client with the shard count and the fold table filled in:
/// the count replaces every `__SHARDS__`, then the table replaces
/// `__FOLD_MAP__`.
pub open spec fn forms_js_spec(folds: Seq<(String, String)>, shards: usize) -> Seq<char> {
    replace_spec(
        replace_spec(FORMS_JS@, "__SHARDS__"@, decimal(shards as nat)),
        "__FOLD_MAP__"@,
        fold_map_spec(folds),
    )
}

/// The fold table as a JavaScript object literal.
pub fn fold_map(folds: &Vec<(String, String)>) -> (r: String)
    ensures
        r@ == fold_map_spec(folds@),
{
    let mut s = String::new();
    push_str(&mut s, "{");
    let ghost start = s@;
    let mut i: usize = 0;
    while i < folds.len()
        invariant
            i <= folds@.len(),
            start == "{"@,
            s@ == start + comma_join(fold_entries(folds@).take(i as int)),
        decreases folds@.len() - i,
    {
        proof {
            lemma_comma_join_push(fold_entries(folds@), i as int);
        }
        if i > 0 {
            push_str(&mut s, ",");
        }
        push_str(&mut s, "'");
        push_str(&mut s, folds[i].0.as_str());
        push_str(&mut s, "':'");
        push_str(&mut s, folds[i].1.as_str());
        push_str(&mut s, "'");
        proof {
            let e = fold_entries(folds@);
            reveal_strlit(",");
            assert(e[i as int] == fold_entry(folds@[i as int].0@, folds@[i as int].1@));
            assert(s@ =~= start + comma_join(e.take(i + 1)));
        }
        i += 1;
    }
    assert(fold_entries(folds@).take(i as int) =~= fold_entries(folds@));
    push_str(&mut s, "}");
    s
}

/// The form-index client for `shards` shards and the given folds.
pub fn forms_js(folds: &Vec<(String, String)>, shards: usize) -> (r: String)
    ensures
        r@ == forms_js_spec(folds@, shards),
{
    let mut count = String::new();
    push_decimal(&mut count, shards);
    proof {
        reveal_strlit("__SHARDS__");
        reveal_strlit("__FOLD_MAP__");
    }
    let routed = replace_str(FORMS_JS, "__SHARDS__", count.as_str());
    let table = fold_map(folds);
    replace_str(routed.as_str(), "__FOLD_MAP__", table.as_str())
}

/// The body of the form-lookup page.
pub open spec fn forms_page_body(folds: Seq<(String, String)>, shards: usize) -> Seq<char> {
    FORMS_PAGE_HEAD@ + decimal(shards as nat) + FORMS_PAGE_MID@ + forms_js_spec(folds, shards) + FORMS_PAGE_TAIL@
}

/// The reverse lookup of surface forms: the page folds the query, routes it
/// to its shard in the browser and lists every analysis found.
pub fn forms_page(folds: &Vec<(String, String)>, shards: usize) -> (r: String)
    ensures
        r@ == site_page_spec("Iskanje form — medžuslovjansky"@, forms_page_body(folds@, shards), 0),
{
    let mut body = String::new();
    push_str(&mut body, FORMS_PAGE_HEAD);
    push_decimal(&mut body, shards);
    push_str(&mut body, FORMS_PAGE_MID);
    let js = forms_js(folds, shards);
    push_str(&mut body, js.as_str());
    push_str(&mut body, FORMS_PAGE_TAIL);
    site_page("Iskanje form — medžuslovjansky", body.as_str(), 0)
}

/// The body of the text-check page.
pub open spec fn text_check_body(folds: Seq<(String, String)>, shards: usize) -> Seq<char> {
    TEXT_CHECK_HEAD@ + forms_js_spec(folds, shards) + TEXT_CHECK_TAIL@
}

/// The text checker in the browser: every token of the pasted text (and
/// every pair of neighbouring tokens) is looked up in the form index and
/// marked known, machine-reconstructed, unknown or a semantic trap.
pub fn text_check_page(folds: &Vec<(String, String)>, shards: usize) -> (r: String)
    ensures
        r@ == site_page_spec("Prověrka teksta — medžuslovjansky"@, text_check_body(folds@, shards), 0),
{
    let mut body = String::new();
    push_str(&mut body, TEXT_CHECK_HEAD);
    let js = forms_js(folds, shards);
    push_str(&mut body, js.as_str());
    push_str(&mut body, TEXT_CHECK_TAIL);
    site_page("Prověrka teksta — medžuslovjansky", body.as_str(), 0)
}

} // verus!
