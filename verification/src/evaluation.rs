//! Running programs: the recursive evaluator.
//!
//! Every function here ends in a state and with a result that the relation
//! of the same construct allows. A generator runs its body once per pixel
//! in a scope of its own that is closed afterwards, so that nothing a
//! pixel's body binds is seen by the next pixel or by the code around the
//! generator.

use vstd::prelude::*;
use vstd::string::StringExecFns;
use crate::ast::{
    duplicate_statements, elsifs_view, expression_view, expressions_view, statements_view,
    BinaryOperator, Event, Expression, ExpressionView, Program, Statement, StatementView,
};
use crate::builtin::{invoke, values_view, values_wf, Builtin, BuiltinFunctions};
use crate::environment::resolve;
use crate::error::{ErrorKind, GizmoError};
use crate::frame::{rows_view, Frame, FrameView};
use crate::interpreter::{
    binding_view, click_key, idle_key, idle_key_text, preserved, Flow, Interpreter,
};
use crate::number::{Number, NumberEngine};
use crate::operators::{
    apply_binary_operator, apply_index_operator, apply_unary_operator, array_value,
};
use crate::semantics::{
    array_via, binary_via, binding_via, bound, call_via, cellular_via, conditional_via, decides,
    decides_via, declined, declined_via, elsif_via, evaluated, evaluated_via, evaluates,
    evaluates_all, executes, expression_via, fails_at, frame_added, frame_via, generates,
    generator_via, idle_via, if_via, index_via, lemma_array_via, lemma_binary_via,
    lemma_binding_via, lemma_call_via, lemma_cellular_via, lemma_conditional_via, lemma_decides,
    lemma_decides_via, lemma_declined, lemma_declined_via, lemma_elsif_via, lemma_evaluated,
    lemma_evaluated_via, lemma_evaluates, lemma_evaluates_all, lemma_executes,
    lemma_expression_via, lemma_fails_at, lemma_frame_via, lemma_generates, lemma_generator_via,
    lemma_idle_via, lemma_if_via, lemma_index_via, lemma_painted, lemma_painted_row,
    lemma_painted_row_via, lemma_painted_via, lemma_paints, lemma_paints_via, lemma_performed,
    lemma_performed_via, lemma_performs, lemma_pixel_fails, lemma_quantifies,
    lemma_quantity_via, lemma_ran, lemma_ran_via, lemma_repeat_via, lemma_repeated,
    lemma_repeated_via, lemma_return_via, lemma_rounds_via, lemma_runs, lemma_runs_via,
    lemma_stops_at, lemma_unary_via, painted, painted_row, painted_row_via, painted_via,
    paints_via, performed, performed_via, performs, pixel_fails, quantifies, quantity_via, ran,
    ran_via, registered, repeat_via, repeated, repeated_via, return_via, rounds_via, runs,
    runs_via, stops_at, unary_via,
};
use crate::text::{decimal_text, same_text};
use crate::value::{duplicate_frames, frames_view, frames_wf, Value, ValueView};

verus! {

impl<E: NumberEngine> Interpreter<E> {
    /// Runs the top-level statements of a program in order. The first
    /// failure ends the run and is returned; what ran before it stays done.
    /// A `return` at the top level ends only its own statement.
    pub fn execute(&mut self, program: &Program) -> (r: Result<(), GizmoError>)
        requires
            old(self).wf(),
        ensures
            final(self).spec_engine() == old(self).spec_engine(),
            final(self).wf(),
            preserved(old(self)@, final(self)@),
            performs(old(self).spec_engine(), program@, old(self)@, final(self)@, r),
    {
        self.perform(&program.statements)
    }

    /// Runs the body registered for a click, if there is one, against the
    /// environment as it is now.
    pub fn handle_click_event(&mut self) -> (r: Result<(), GizmoError>)
        requires
            old(self).wf(),
        ensures
            final(self).spec_engine() == old(self).spec_engine(),
            final(self).wf(),
            preserved(old(self)@, final(self)@),
            match old(self)@.handlers.get(click_key()) {
                Some(body) => performs(old(self).spec_engine(), body, old(self)@, final(self)@, r),
                None => r is Ok && final(self)@ == old(self)@,
            },
    {
        self.run_handler("clicked")
    }

    /// Runs the body registered for idling `idle_time` milliseconds, if
    /// there is one, against the environment as it is now.
    pub fn handle_idle_event(&mut self, idle_time: u64) -> (r: Result<(), GizmoError>)
        requires
            old(self).wf(),
        ensures
            final(self).spec_engine() == old(self).spec_engine(),
            final(self).wf(),
            preserved(old(self)@, final(self)@),
            match old(self)@.handlers.get(idle_key(idle_time)) {
                Some(body) => performs(old(self).spec_engine(), body, old(self)@, final(self)@, r),
                None => r is Ok && final(self)@ == old(self)@,
            },
    {
        let key = idle_key_text(idle_time);
        self.run_handler(key.as_str())
    }

    fn run_handler(&mut self, key: &str) -> (r: Result<(), GizmoError>)
        requires
            old(self).wf(),
        ensures
            final(self).spec_engine() == old(self).spec_engine(),
            final(self).wf(),
            preserved(old(self)@, final(self)@),
            match old(self)@.handlers.get(key@) {
                Some(body) => performs(old(self).spec_engine(), body, old(self)@, final(self)@, r),
                None => r is Ok && final(self)@ == old(self)@,
            },
    {
        match self.handler_for(key) {
            Some(body) => self.perform(&body),
            None => Ok(()),
        }
    }

    /// Runs statements at the top level.
    fn perform(&mut self, statements: &Vec<Statement>) -> (r: Result<(), GizmoError>)
        requires
            old(self).wf(),
        ensures
            final(self).spec_engine() == old(self).spec_engine(),
            final(self).wf(),
            preserved(old(self)@, final(self)@),
            performs(old(self).spec_engine(), statements_view(*statements), old(self)@, final(self)@, r),
    {
        let ghost ss = statements_view(*statements);
        let ghost s0 = self@;
        let mut i: usize = 0;
        proof {
            lemma_performed(old(self).spec_engine(), ss, 0, s0, s0);
        }
        while i < statements.len()
            invariant
                self.spec_engine() == old(self).spec_engine(),
                self.wf(),
                preserved(old(self)@, self@),
                i <= statements@.len(),
                ss == statements_view(*statements),
                s0 == old(self)@,
                performed(old(self).spec_engine(), ss, i as int, s0, self@),
            decreases statements@.len() - i,
        {
            let ghost sm = self@;
            assert(ss[i as int] == statements@[i as int]@);
            match self.execute_statement(&statements[i]) {
                Err(e) => {
                    proof {
                        lemma_stops_at(old(self).spec_engine(), ss, i as int, s0, sm, self@, e);
                        assert(stops_at(old(self).spec_engine(), ss, i as int, s0, sm, self@, e));
                        lemma_performs(old(self).spec_engine(), ss, s0, self@, Err(e));
                    }
                    return Err(e);
                },
                Ok(flow) => {
                    proof {
                        lemma_performed_via(
                            old(self).spec_engine(), ss, i + 1, s0, sm, flow, self@,
                        );
                        assert(performed_via(
                            old(self).spec_engine(), ss, i + 1, s0, sm, flow, self@,
                        ));
                        lemma_performed(old(self).spec_engine(), ss, i + 1, s0, self@);
                    }
                },
            }
            i = i + 1;
        }
        proof {
            lemma_performs(old(self).spec_engine(), ss, s0, self@, Ok(()));
        }
        Ok(())
    }

    /// Runs one statement.
    pub fn execute_statement(&mut self, stmt: &Statement) -> (r: Result<Flow, GizmoError>)
        requires
            old(self).wf(),
        ensures
            final(self).spec_engine() == old(self).spec_engine(),
            final(self).wf(),
            preserved(old(self)@, final(self)@),
            r matches Ok(Flow::Returned(v)) ==> v.wf(),
            executes(old(self).spec_engine(), stmt@, old(self)@, final(self)@, r),
            stmt@ is ExpressionStatement ==> !(r matches Ok(Flow::Returned(_))),
        decreases stmt, 1int,
    {
        let ghost s0 = self@;
        match stmt {
            Statement::VariableDeclaration { var_type: _, name, value } => self.execute_binding(
                Ghost(stmt),
                name,
                value,
            ),
            Statement::Assignment { name, value } => self.execute_binding(Ghost(stmt), name, value),
            Statement::ExpressionStatement(expr) => {
                let rv = self.evaluate_expression(expr);
                let ghost rg = rv;
                let r = match rv {
                    Err(e) => Err(e),
                    Ok(_) => Ok(Flow::Normal),
                };
                proof {
                    lemma_expression_via(old(self).spec_engine(), expr@, s0, self@, rg, r);
                    assert(expression_via(old(self).spec_engine(), expr@, s0, self@, rg, r));
                    lemma_executes(old(self).spec_engine(), stmt@, s0, self@, r);
                }
                r
            },
            Statement::IfStatement { condition, then_block, elsif_blocks, else_block } => {
                self.execute_if(Ghost(stmt), condition, then_block, elsif_blocks, else_block)
            },
            Statement::RepeatStatement { times, body } => self.execute_repeat(Ghost(stmt), times, body),
            Statement::WhenStatement { event, body } => {
                match event {
                    Event::Clicked => {
                        self.register_handler(String::from_str("clicked"), duplicate_statements(body));
                        proof {
                            lemma_executes(
                                old(self).spec_engine(), stmt@, s0, self@, Ok(Flow::Normal),
                            );
                        }
                        Ok(Flow::Normal)
                    },
                    Event::Idle(limit) => {
                        let rn = self.quantify(limit);
                        let ghost sm = self@;
                        let ghost rg = rn;
                        let r = match rn {
                            Err(e) => Err(e),
                            Ok(ms) => {
                                self.register_handler(
                                    idle_key_text(ms.to_u64()),
                                    duplicate_statements(body),
                                );
                                Ok(Flow::Normal)
                            },
                        };
                        proof {
                            lemma_idle_via(
                                old(self).spec_engine(), limit@, statements_view(*body), s0, sm, rg,
                                self@, r,
                            );
                            assert(idle_via(
                                old(self).spec_engine(), limit@, statements_view(*body), s0, sm, rg,
                                self@, r,
                            ));
                            lemma_executes(old(self).spec_engine(), stmt@, s0, self@, r);
                        }
                        r
                    },
                }
            },
            Statement::ReturnStatement(expr) => {
                let rv = self.evaluate_expression(expr);
                let ghost rg = rv;
                let r = match rv {
                    Err(e) => Err(e),
                    Ok(v) => Ok(Flow::Returned(v)),
                };
                proof {
                    lemma_return_via(old(self).spec_engine(), expr@, s0, self@, rg, r);
                    assert(return_via(old(self).spec_engine(), expr@, s0, self@, rg, r));
                    lemma_executes(old(self).spec_engine(), stmt@, s0, self@, r);
                }
                r
            },
        }
    }

    /// Runs a declaration or an assignment of `value` to `name`.
    fn execute_binding(&mut self, Ghost(stmt): Ghost<&Statement>, name: &String, value: &Expression) -> (r:
        Result<Flow, GizmoError>)
        requires
            old(self).wf(),
            stmt@ matches StatementView::VariableDeclaration { name: n, value: v, .. } ==> n == name@
                && v == value@,
            stmt@ matches StatementView::Assignment { name: n, value: v } ==> n == name@ && v
                == value@,
            stmt@ is VariableDeclaration || stmt@ is Assignment,
        ensures
            final(self).spec_engine() == old(self).spec_engine(),
            final(self).wf(),
            preserved(old(self)@, final(self)@),
            r matches Ok(Flow::Returned(v)) ==> v.wf(),
            executes(old(self).spec_engine(), stmt@, old(self)@, final(self)@, r),
        decreases value, 4int,
    {
        let ghost s0 = self@;
        let rv = self.evaluate_expression(value);
        let ghost sm = self@;
        let ghost rg = rv;
        let r = match rv {
            Err(e) => Err(e),
            Ok(v) => {
                self.bind(name.clone(), v);
                Ok(Flow::Normal)
            },
        };
        proof {
            lemma_binding_via(old(self).spec_engine(), name@, value@, s0, sm, rg, self@, r);
            assert(binding_via(old(self).spec_engine(), name@, value@, s0, sm, rg, self@, r));
            lemma_executes(old(self).spec_engine(), stmt@, s0, self@, r);
        }
        r
    }

    /// Runs an `if` statement.
    fn execute_if(
        &mut self,
        Ghost(stmt): Ghost<&Statement>,
        condition: &Expression,
        then_block: &Vec<Statement>,
        elsif_blocks: &Vec<(Expression, Vec<Statement>)>,
        else_block: &Option<Vec<Statement>>,
    ) -> (r: Result<Flow, GizmoError>)
        requires
            old(self).wf(),
            *stmt == (Statement::IfStatement {
                condition: *condition,
                then_block: *then_block,
                elsif_blocks: *elsif_blocks,
                else_block: *else_block,
            }),
        ensures
            final(self).spec_engine() == old(self).spec_engine(),
            final(self).wf(),
            preserved(old(self)@, final(self)@),
            r matches Ok(Flow::Returned(v)) ==> v.wf(),
            executes(old(self).spec_engine(), stmt@, old(self)@, final(self)@, r),
        decreases stmt, 0int,
    {
        let ghost s0 = self@;
        let ghost bs = elsifs_view(*elsif_blocks);
        let rc = self.evaluate_expression(condition);
        let ghost sm = self@;
        let ghost rg = rc;
        let c = match rc {
            Err(e) => {
                proof {
                    lemma_if_via(old(self).spec_engine(), stmt@, s0, sm, rg, self@, Err(e));
                    assert(if_via(old(self).spec_engine(), stmt@, s0, sm, rg, self@, Err(e)));
                    lemma_executes(old(self).spec_engine(), stmt@, s0, self@, Err(e));
                }
                return Err(e);
            },
            Ok(c) => c,
        };
        if c.is_truthy() {
            let r = self.execute_block(then_block);
            proof {
                lemma_if_via(old(self).spec_engine(), stmt@, s0, sm, rg, self@, r);
                assert(if_via(old(self).spec_engine(), stmt@, s0, sm, rg, self@, r));
                lemma_executes(old(self).spec_engine(), stmt@, s0, self@, r);
            }
            return r;
        }
        let mut i: usize = 0;
        proof {
            lemma_declined(old(self).spec_engine(), bs, 0, sm, sm);
        }
        while i < elsif_blocks.len()
            invariant
                self.spec_engine() == old(self).spec_engine(),
                self.wf(),
                preserved(old(self)@, self@),
                i <= elsif_blocks@.len(),
                bs == elsifs_view(*elsif_blocks),
                s0 == old(self)@,
                rg is Ok,
                !rg->Ok_0@.truthy(),
                evaluates(old(self).spec_engine(), condition@, s0, sm, rg),
                declined(old(self).spec_engine(), bs, i as int, sm, self@),
                *stmt == (Statement::IfStatement {
                    condition: *condition,
                    then_block: *then_block,
                    elsif_blocks: *elsif_blocks,
                    else_block: *else_block,
                }),
            decreases elsif_blocks@.len() - i,
        {
            let ghost sa = self@;
            let branch = &elsif_blocks[i];
            assert(bs[i as int] == (expression_view(branch.0), statements_view(branch.1)));
            let rk = self.evaluate_expression(&branch.0);
            let ghost sb = self@;
            let ghost rkg = rk;
            match rk {
                Err(e) => {
                    proof {
                        lemma_elsif_via(
                            old(self).spec_engine(), stmt@, i as int, sm, sa, sb, rkg, self@,
                            Err(e),
                        );
                        assert(elsif_via(
                            old(self).spec_engine(), stmt@, i as int, sm, sa, sb, rkg, self@,
                            Err(e),
                        ));
                        lemma_if_via(old(self).spec_engine(), stmt@, s0, sm, rg, self@, Err(e));
                        assert(if_via(old(self).spec_engine(), stmt@, s0, sm, rg, self@, Err(e)));
                        lemma_executes(old(self).spec_engine(), stmt@, s0, self@, Err(e));
                    }
                    return Err(e);
                },
                Ok(c) => {
                    if c.is_truthy() {
                        let r = self.execute_block(&branch.1);
                        proof {
                            lemma_elsif_via(
                                old(self).spec_engine(), stmt@, i as int, sm, sa, sb, rkg, self@, r,
                            );
                            assert(elsif_via(
                                old(self).spec_engine(), stmt@, i as int, sm, sa, sb, rkg, self@, r,
                            ));
                            lemma_if_via(old(self).spec_engine(), stmt@, s0, sm, rg, self@, r);
                            assert(if_via(old(self).spec_engine(), stmt@, s0, sm, rg, self@, r));
                            lemma_executes(old(self).spec_engine(), stmt@, s0, self@, r);
                        }
                        return r;
                    }
                    proof {
                        lemma_declined_via(old(self).spec_engine(), bs, i + 1, sm, sa, rkg, self@);
                        assert(declined_via(
                            old(self).spec_engine(), bs, i + 1, sm, sa, rkg, self@,
                        ));
                        lemma_declined(old(self).spec_engine(), bs, i + 1, sm, self@);
                    }
                },
            }
            i = i + 1;
        }
        let ghost sa = self@;
        let r = match else_block {
            Some(block) => self.execute_block(block),
            None => Ok(Flow::Normal),
        };
        proof {
            lemma_elsif_via(
                old(self).spec_engine(), stmt@, bs.len() as int, sm, sa, sa, rg, self@, r,
            );
            assert(elsif_via(
                old(self).spec_engine(), stmt@, bs.len() as int, sm, sa, sa, rg, self@, r,
            ));
            lemma_if_via(old(self).spec_engine(), stmt@, s0, sm, rg, self@, r);
            assert(if_via(old(self).spec_engine(), stmt@, s0, sm, rg, self@, r));
            lemma_executes(old(self).spec_engine(), stmt@, s0, self@, r);
        }
        r
    }

    /// Runs a `repeat` statement.
    fn execute_repeat(
        &mut self,
        Ghost(stmt): Ghost<&Statement>,
        times: &Expression,
        body: &Vec<Statement>,
    ) -> (r: Result<Flow, GizmoError>)
        requires
            old(self).wf(),
            *stmt == (Statement::RepeatStatement { times: *times, body: *body }),
        ensures
            final(self).spec_engine() == old(self).spec_engine(),
            final(self).wf(),
            preserved(old(self)@, final(self)@),
            r matches Ok(Flow::Returned(v)) ==> v.wf(),
            executes(old(self).spec_engine(), stmt@, old(self)@, final(self)@, r),
        decreases stmt, 0int,
    {
        let ghost s0 = self@;
        let ghost bv = statements_view(*body);
        let rn = self.quantify(times);
        let ghost sm = self@;
        let ghost rg = rn;
        let count: i32 = match rn {
            Err(e) => {
                proof {
                    lemma_repeat_via(old(self).spec_engine(), stmt@, s0, sm, rg, self@, Err(e));
                    assert(repeat_via(old(self).spec_engine(), stmt@, s0, sm, rg, self@, Err(e)));
                    lemma_executes(old(self).spec_engine(), stmt@, s0, self@, Err(e));
                }
                return Err(e);
            },
            Ok(n) => n.to_i32(),
        };
        let mut round: i32 = 0;
        proof {
            lemma_repeated(old(self).spec_engine(), bv, 0, sm, sm);
        }
        while round < count
            invariant
                self.spec_engine() == old(self).spec_engine(),
                self.wf(),
                preserved(old(self)@, self@),
                0 <= round,
                round <= count || round == 0,
                bv == statements_view(*body),
                s0 == old(self)@,
                rg is Ok,
                count == rg->Ok_0.as_i32(),
                quantifies(old(self).spec_engine(), times@, s0, sm, rg),
                repeated(old(self).spec_engine(), bv, round as int, sm, self@),
                *stmt == (Statement::RepeatStatement { times: *times, body: *body }),
            decreases count - round,
        {
            let ghost sa = self@;
            let now = Number::from_integer(round as u64);
            self.bind(String::from_str("time"), Value::Number(now));
            let r = self.execute_block(body);
            match r {
                Ok(Flow::Normal) => {
                    proof {
                        lemma_repeated_via(old(self).spec_engine(), bv, round + 1, sm, sa, self@);
                        assert(repeated_via(old(self).spec_engine(), bv, round + 1, sm, sa, self@));
                        lemma_repeated(old(self).spec_engine(), bv, round + 1, sm, self@);
                    }
                },
                other => {
                    proof {
                        lemma_rounds_via(old(self).spec_engine(), stmt@, rg->Ok_0, round as int, sm, sa, self@, other);
                        assert(rounds_via(old(self).spec_engine(), stmt@, rg->Ok_0, round as int, sm, sa, self@, other));
                        lemma_repeat_via(old(self).spec_engine(), stmt@, s0, sm, rg, self@, other);
                        assert(repeat_via(
                            old(self).spec_engine(), stmt@, s0, sm, rg, self@, other,
                        ));
                        lemma_executes(old(self).spec_engine(), stmt@, s0, self@, other);
                    }
                    return other;
                },
            }
            round = round + 1;
        }
        proof {
            let r = Ok::<Flow, GizmoError>(Flow::Normal);
            lemma_rounds_via(old(self).spec_engine(), stmt@, rg->Ok_0, round as int, sm, self@, self@, r);
            assert(rounds_via(old(self).spec_engine(), stmt@, rg->Ok_0, round as int, sm, self@, self@, r));
            lemma_repeat_via(old(self).spec_engine(), stmt@, s0, sm, rg, self@, r);
            assert(repeat_via(old(self).spec_engine(), stmt@, s0, sm, rg, self@, r));
            lemma_executes(old(self).spec_engine(), stmt@, s0, self@, r);
        }
        Ok(Flow::Normal)
    }

    /// Runs the statements of a block in order, up to the first that
    /// returns or fails.
    pub fn execute_block(&mut self, statements: &Vec<Statement>) -> (r: Result<Flow, GizmoError>)
        requires
            old(self).wf(),
        ensures
            final(self).spec_engine() == old(self).spec_engine(),
            final(self).wf(),
            preserved(old(self)@, final(self)@),
            r matches Ok(Flow::Returned(v)) ==> v.wf(),
            runs(old(self).spec_engine(), statements_view(*statements), old(self)@, final(self)@, r),
        decreases statements, 1int,
    {
        let ghost ss = statements_view(*statements);
        let ghost s0 = self@;
        let mut i: usize = 0;
        proof {
            lemma_ran(old(self).spec_engine(), ss, 0, s0, s0);
        }
        while i < statements.len()
            invariant
                self.spec_engine() == old(self).spec_engine(),
                self.wf(),
                preserved(old(self)@, self@),
                i <= statements@.len(),
                ss == statements_view(*statements),
                s0 == old(self)@,
                ran(old(self).spec_engine(), ss, i as int, s0, self@),
            decreases statements@.len() - i,
        {
            let ghost sm = self@;
            assert(ss[i as int] == statements@[i as int]@);
            let r = self.execute_statement(&statements[i]);
            match r {
                Ok(Flow::Normal) => {
                    proof {
                        lemma_ran_via(old(self).spec_engine(), ss, i + 1, s0, sm, self@);
                        assert(ran_via(old(self).spec_engine(), ss, i + 1, s0, sm, self@));
                        lemma_ran(old(self).spec_engine(), ss, i + 1, s0, self@);
                    }
                },
                other => {
                    proof {
                        lemma_runs_via(old(self).spec_engine(), ss, i as int, s0, sm, self@, other);
                        assert(runs_via(
                            old(self).spec_engine(), ss, i as int, s0, sm, self@, other,
                        ));
                        lemma_runs(old(self).spec_engine(), ss, s0, self@, other);
                    }
                    return other;
                },
            }
            i = i + 1;
        }
        proof {
            let r = Ok::<Flow, GizmoError>(Flow::Normal);
            lemma_runs_via(old(self).spec_engine(), ss, ss.len() as int, s0, self@, self@, r);
            assert(runs_via(old(self).spec_engine(), ss, ss.len() as int, s0, self@, self@, r));
            lemma_runs(old(self).spec_engine(), ss, s0, self@, r);
        }
        Ok(Flow::Normal)
    }

    /// Evaluates expressions from left to right.
    fn evaluate_arguments(&mut self, args: &Vec<Expression>) -> (r: Result<Vec<Value>, GizmoError>)
        requires
            old(self).wf(),
        ensures
            final(self).spec_engine() == old(self).spec_engine(),
            final(self).wf(),
            preserved(old(self)@, final(self)@),
            r matches Ok(vs) ==> values_wf(vs@) && vs@.len() == args@.len(),
            evaluates_all(old(self).spec_engine(), expressions_view(*args), old(self)@, final(self)@, r),
        decreases args, 1int,
    {
        let ghost es = expressions_view(*args);
        let ghost s0 = self@;
        let mut values: Vec<Value> = Vec::new();
        let mut i: usize = 0;
        proof {
            lemma_evaluated(old(self).spec_engine(), es, 0, s0, s0, values@);
        }
        while i < args.len()
            invariant
                self.spec_engine() == old(self).spec_engine(),
                self.wf(),
                preserved(old(self)@, self@),
                i <= args@.len(),
                es == expressions_view(*args),
                s0 == old(self)@,
                values@.len() == i,
                values_wf(values@),
                evaluated(old(self).spec_engine(), es, i as int, s0, self@, values@),
            decreases args@.len() - i,
        {
            let ghost sm = self@;
            let ghost before = values@;
            assert(es[i as int] == args@[i as int]@);
            match self.evaluate_expression(&args[i]) {
                Err(e) => {
                    proof {
                        lemma_fails_at(
                            old(self).spec_engine(), es, i as int, s0, sm, before, self@, e,
                        );
                        assert(fails_at(
                            old(self).spec_engine(), es, i as int, s0, sm, before, self@, e,
                        ));
                        lemma_evaluates_all(old(self).spec_engine(), es, s0, self@, Err(e));
                    }
                    return Err(e);
                },
                Ok(v) => {
                    values.push(v);
                    proof {
                        assert(values@.drop_last() =~= before);
                        assert forall|j: int| 0 <= j < values@.len() implies (#[trigger] values@[j]).wf() by {
                            if j < before.len() {
                                assert(values@[j] == before[j]);
                            }
                        }
                        lemma_evaluated_via(
                            old(self).spec_engine(), es, i + 1, s0, sm, self@, values@,
                        );
                        assert(evaluated_via(
                            old(self).spec_engine(), es, i + 1, s0, sm, self@, values@,
                        ));
                        lemma_evaluated(old(self).spec_engine(), es, i + 1, s0, self@, values@);
                    }
                },
            }
            i = i + 1;
        }
        proof {
            lemma_evaluates_all(old(self).spec_engine(), es, s0, self@, Ok(values));
        }
        Ok(values)
    }

    /// Evaluates an expression as a number.
    fn quantify(&mut self, expr: &Expression) -> (r: Result<Number, GizmoError>)
        requires
            old(self).wf(),
        ensures
            final(self).spec_engine() == old(self).spec_engine(),
            final(self).wf(),
            preserved(old(self)@, final(self)@),
            quantifies(old(self).spec_engine(), expr@, old(self)@, final(self)@, r),
        decreases expr, 3int,
    {
        let ghost s0 = self@;
        let rv = self.evaluate_expression(expr);
        let ghost rg = rv;
        let r = match rv {
            Err(e) => Err(e),
            Ok(v) => v.to_number(self.engine()),
        };
        proof {
            lemma_quantity_via(old(self).spec_engine(), expr@, s0, self@, rg, r);
            assert(quantity_via(old(self).spec_engine(), expr@, s0, self@, rg, r));
            lemma_quantifies(old(self).spec_engine(), expr@, s0, self@, r);
        }
        r
    }

    /// Evaluates an expression.
    pub fn evaluate_expression(&mut self, expr: &Expression) -> (r: Result<Value, GizmoError>)
        requires
            old(self).wf(),
        ensures
            final(self).spec_engine() == old(self).spec_engine(),
            final(self).wf(),
            preserved(old(self)@, final(self)@),
            r matches Ok(v) ==> v.wf(),
            evaluates(old(self).spec_engine(), expr@, old(self)@, final(self)@, r),
        decreases expr, 2int,
    {
        let ghost s0 = self@;
        match expr {
            Expression::Number(lexeme) => {
                let r = match self.engine().parse(lexeme.as_str()) {
                    Some(n) => Ok(Value::Number(n)),
                    None => {
                        let mut msg = String::from_str("Invalid number '");
                        msg.append(lexeme.as_str());
                        msg.append("'");
                        Err(GizmoError::LexError(msg))
                    },
                };
                proof {
                    lemma_evaluates(old(self).spec_engine(), expr@, s0, self@, r);
                }
                r
            },
            Expression::String(s) => {
                let r = Ok(Value::String(s.clone()));
                proof {
                    lemma_evaluates(old(self).spec_engine(), expr@, s0, self@, r);
                }
                r
            },
            Expression::Boolean(b) => {
                let r = Ok(Value::Boolean(*b));
                proof {
                    lemma_evaluates(old(self).spec_engine(), expr@, s0, self@, r);
                }
                r
            },
            Expression::Identifier(name) => {
                let r = match self.look_up(name.as_str()) {
                    Ok(v) => Ok(v),
                    Err(e) => {
                        if same_text(name.as_str(), "time") {
                            Ok(Value::Number(Number::from_integer(self.clock())))
                        } else {
                            Err(e)
                        }
                    },
                };
                proof {
                    lemma_evaluates(old(self).spec_engine(), expr@, s0, self@, r);
                }
                r
            },
            Expression::Array(elements) => {
                let ra = self.evaluate_arguments(elements);
                let ghost rg = ra;
                let r = match ra {
                    Err(e) => Err(e),
                    Ok(values) => array_value(&values),
                };
                proof {
                    lemma_array_via(old(self).spec_engine(), expr@, s0, self@, rg, r);
                    assert(array_via(old(self).spec_engine(), expr@, s0, self@, rg, r));
                    lemma_evaluates(old(self).spec_engine(), expr@, s0, self@, r);
                }
                r
            },
            Expression::FunctionCall { name, args } => {
                let ra = self.evaluate_arguments(args);
                let ghost sm = self@;
                let ghost rg = ra;
                let r = match ra {
                    Err(e) => Err(e),
                    Ok(values) => self.apply(name, args, &values),
                };
                proof {
                    lemma_call_via(old(self).spec_engine(), expr@, s0, sm, rg, self@, r);
                    assert(call_via(old(self).spec_engine(), expr@, s0, sm, rg, self@, r));
                    lemma_evaluates(old(self).spec_engine(), expr@, s0, self@, r);
                }
                r
            },
            Expression::Binary { left, operator, right } => {
                let rl = self.evaluate_expression(left);
                let ghost sm = self@;
                let ghost rlg = rl;
                let (r, Ghost(rrg)): (Result<Value, GizmoError>, Ghost<Result<Value, GizmoError>>) =
                    match rl {
                    Err(e) => (Err(e), Ghost(rlg)),
                    Ok(a) => {
                        let truth = a.is_truthy();
                        let and = match operator {
                            BinaryOperator::And => true,
                            _ => false,
                        };
                        let or = match operator {
                            BinaryOperator::Or => true,
                            _ => false,
                        };
                        if and && !truth {
                            (Ok(Value::Boolean(false)), Ghost(rlg))
                        } else if or && truth {
                            (Ok(Value::Boolean(true)), Ghost(rlg))
                        } else {
                            let rr = self.evaluate_expression(right);
                            let ghost rrg = rr;
                            match rr {
                                Err(e) => (Err(e), Ghost(rrg)),
                                Ok(b) => {
                                    if and || or {
                                        (Ok(Value::Boolean(b.is_truthy())), Ghost(rrg))
                                    } else {
                                        (
                                            apply_binary_operator(self.engine(), &a, *operator, &b),
                                            Ghost(rrg),
                                        )
                                    }
                                },
                            }
                        }
                    },
                };
                proof {
                    lemma_binary_via(old(self).spec_engine(), expr@, s0, sm, rlg, rrg, self@, r);
                    assert(binary_via(old(self).spec_engine(), expr@, s0, sm, rlg, rrg, self@, r));
                    lemma_evaluates(old(self).spec_engine(), expr@, s0, self@, r);
                }
                r
            },
            Expression::Unary { operator, operand } => {
                let ro = self.evaluate_expression(operand);
                let ghost rg = ro;
                let r = match ro {
                    Err(e) => Err(e),
                    Ok(v) => apply_unary_operator(self.engine(), *operator, &v),
                };
                proof {
                    lemma_unary_via(old(self).spec_engine(), *operator, operand@, s0, self@, rg, r);
                    assert(unary_via(
                        old(self).spec_engine(), *operator, operand@, s0, self@, rg, r,
                    ));
                    lemma_evaluates(old(self).spec_engine(), expr@, s0, self@, r);
                }
                r
            },
            Expression::Index { object, index } => {
                let ro = self.evaluate_expression(object);
                let ghost sm = self@;
                let ghost rog = ro;
                let (r, Ghost(rig)): (Result<Value, GizmoError>, Ghost<Result<Value, GizmoError>>) =
                    match ro {
                    Err(e) => (Err(e), Ghost(rog)),
                    Ok(o) => {
                        let ri = self.evaluate_expression(index);
                        let ghost rig = ri;
                        match ri {
                            Err(e) => (Err(e), Ghost(rig)),
                            Ok(i) => (apply_index_operator(&o, &i), Ghost(rig)),
                        }
                    },
                };
                proof {
                    lemma_index_via(old(self).spec_engine(), expr@, s0, sm, rog, rig, self@, r);
                    assert(index_via(old(self).spec_engine(), expr@, s0, sm, rog, rig, self@, r));
                    lemma_evaluates(old(self).spec_engine(), expr@, s0, self@, r);
                }
                r
            },
            Expression::PatternGenerator { width, height, body } => {
                self.evaluate_generator(expr, width, height, None, body)
            },
            Expression::AnimatedGenerator { width, height, time_var, body } => {
                self.evaluate_generator(expr, width, height, Some(time_var), body)
            },
            Expression::CellularGenerator { width, height, prev_var, body } => {
                self.evaluate_cellular(expr, width, height, prev_var, body)
            },
            Expression::Conditional { condition, then_expr, else_expr } => {
                let rc = self.evaluate_expression(condition);
                let ghost sm = self@;
                let ghost rg = rc;
                let r = match rc {
                    Err(e) => Err(e),
                    Ok(c) => {
                        if c.is_truthy() {
                            self.evaluate_expression(then_expr)
                        } else {
                            self.evaluate_expression(else_expr)
                        }
                    },
                };
                proof {
                    lemma_conditional_via(old(self).spec_engine(), expr@, s0, sm, rg, self@, r);
                    assert(conditional_via(old(self).spec_engine(), expr@, s0, sm, rg, self@, r));
                    lemma_evaluates(old(self).spec_engine(), expr@, s0, self@, r);
                }
                r
            },
        }
    }

    /// Evaluates a `pattern` generator, or an `animate` generator that
    /// binds `time_var` to the clock.
    fn evaluate_generator(
        &mut self,
        expr: &Expression,
        width: &Expression,
        height: &Expression,
        time_var: Option<&String>,
        body: &Vec<Statement>,
    ) -> (r: Result<Value, GizmoError>)
        requires
            old(self).wf(),
            match time_var {
                None => expr@ == (ExpressionView::PatternGenerator {
                    width: Box::new(width@),
                    height: Box::new(height@),
                    body: statements_view(*body),
                }),
                Some(name) => expr@ == (ExpressionView::AnimatedGenerator {
                    width: Box::new(width@),
                    height: Box::new(height@),
                    time_var: name@,
                    body: statements_view(*body),
                }),
            },
            decreases_to!(expr => width),
            decreases_to!(expr => height),
            decreases_to!(expr => body),
        ensures
            final(self).spec_engine() == old(self).spec_engine(),
            final(self).wf(),
            preserved(old(self)@, final(self)@),
            r matches Ok(v) ==> v.wf(),
            evaluates(old(self).spec_engine(), expr@, old(self)@, final(self)@, r),
        decreases expr, 0int,
    {
        let ghost s0 = self@;
        let now = Number::from_integer(self.clock());
        let extra: Option<(String, Value)> = match time_var {
            None => None,
            Some(name) => Some((name.clone(), Value::Number(now))),
        };
        let ghost xv = binding_view(extra);
        proof {
            match time_var {
                None => {
                    assert(xv == None::<(Seq<char>, ValueView)>);
                },
                Some(name) => {
                    assert(xv == Some((name@, ValueView::Number(now))));
                },
            }
        }
        let rw = self.quantify(width);
        let ghost sa = self@;
        let ghost rwg = rw;
        let wide = match rw {
            Err(e) => {
                proof {
                    lemma_generator_via(
                        old(self).spec_engine(), expr@, s0, sa, sa, rwg, rwg, self@, Err(e),
                    );
                    assert(generator_via(
                        old(self).spec_engine(), expr@, s0, sa, sa, rwg, rwg, self@, Err(e),
                    ));
                    lemma_evaluates(old(self).spec_engine(), expr@, s0, self@, Err(e));
                }
                return Err(e);
            },
            Ok(n) => n.to_index(),
        };
        let rh = self.quantify(height);
        let ghost sb = self@;
        let ghost rhg = rh;
        let r = match rh {
            Err(e) => Err(e),
            Ok(n) => self.generate(wide, n.to_index(), &extra, body),
        };
        proof {
            lemma_generator_via(old(self).spec_engine(), expr@, s0, sa, sb, rwg, rhg, self@, r);
            assert(generator_via(old(self).spec_engine(), expr@, s0, sa, sb, rwg, rhg, self@, r));
            lemma_evaluates(old(self).spec_engine(), expr@, s0, self@, r);
        }
        r
    }

    /// Evaluates an `evolve` generator.
    fn evaluate_cellular(
        &mut self,
        expr: &Expression,
        width: &Expression,
        height: &Expression,
        prev_var: &String,
        body: &Vec<Statement>,
    ) -> (r: Result<Value, GizmoError>)
        requires
            old(self).wf(),
            expr@ == (ExpressionView::CellularGenerator {
                width: Box::new(width@),
                height: Box::new(height@),
                prev_var: prev_var@,
                body: statements_view(*body),
            }),
            decreases_to!(expr => width),
            decreases_to!(expr => height),
            decreases_to!(expr => body),
        ensures
            final(self).spec_engine() == old(self).spec_engine(),
            final(self).wf(),
            preserved(old(self)@, final(self)@),
            r matches Ok(v) ==> v.wf(),
            evaluates(old(self).spec_engine(), expr@, old(self)@, final(self)@, r),
        decreases expr, 0int,
    {
        let ghost s0 = self@;
        let rw = self.quantify(width);
        let ghost sa = self@;
        let ghost rwg = rw;
        let wide = match rw {
            Err(e) => {
                proof {
                    lemma_cellular_via(
                        old(self).spec_engine(), expr@, s0, sa, sa, rwg, rwg, self@, Err(e),
                    );
                    assert(cellular_via(
                        old(self).spec_engine(), expr@, s0, sa, sa, rwg, rwg, self@, Err(e),
                    ));
                    lemma_evaluates(old(self).spec_engine(), expr@, s0, self@, Err(e));
                }
                return Err(e);
            },
            Ok(n) => n.to_index(),
        };
        let rh = self.quantify(height);
        let ghost sb = self@;
        let ghost rhg = rh;
        let r = match rh {
            Err(e) => Err(e),
            Ok(n) => self.generate_cellular_frame(wide, n.to_index(), prev_var, body),
        };
        proof {
            lemma_cellular_via(old(self).spec_engine(), expr@, s0, sa, sb, rwg, rhg, self@, r);
            assert(cellular_via(old(self).spec_engine(), expr@, s0, sa, sb, rwg, rhg, self@, r));
            lemma_evaluates(old(self).spec_engine(), expr@, s0, self@, r);
        }
        r
    }

    /// Applies the function called `name` to the values of its arguments.
    fn apply(&mut self, name: &String, args: &Vec<Expression>, values: &Vec<Value>) -> (r: Result<
        Value,
        GizmoError,
    >)
        requires
            old(self).wf(),
            values_wf(values@),
            values@.len() == args@.len(),
        ensures
            final(self).spec_engine() == old(self).spec_engine(),
            final(self).wf(),
            preserved(old(self)@, final(self)@),
            r matches Ok(v) ==> v.wf(),
            crate::semantics::applied(old(self).spec_engine(),
                name@,
                expressions_view(*args),
                values_view(values@),
                old(self)@,
                final(self)@,
                r,
            ),
    {
        match BuiltinFunctions::new().get(name.as_str()) {
            Some(Builtin::AddFrame) => self.add_frame(args, values),
            Some(b) => {
                match b {
                    Builtin::Play | Builtin::Loop | Builtin::PlaySpeed | Builtin::LoopSpeed
                    | Builtin::Stop => self.handle_animation_function(b, values),
                    _ => invoke(self.engine(), b, values),
                }
            },
            None => Err(GizmoError::UndefinedFunction(name.clone())),
        }
    }

    /// Appends a frame to a frame sequence.
    fn add_frame(&mut self, args: &Vec<Expression>, values: &Vec<Value>) -> (r: Result<
        Value,
        GizmoError,
    >)
        requires
            old(self).wf(),
            values_wf(values@),
            values@.len() == args@.len(),
        ensures
            final(self).spec_engine() == old(self).spec_engine(),
            final(self).wf(),
            preserved(old(self)@, final(self)@),
            r matches Ok(v) ==> v.wf(),
            frame_added(
                expressions_view(*args),
                values_view(values@),
                old(self)@,
                final(self)@,
                r,
            ),
    {
        let ghost es = expressions_view(*args);
        let ghost vs = values_view(values@);
        if values.len() != 2 {
            let mut msg = String::from_str("add_frame expects 2 arguments, got ");
            msg.append(decimal_text(values.len() as u64).as_str());
            return Err(GizmoError::ArgumentError(msg));
        }
        assert(values@[0].wf() && values@[1].wf());
        assert(vs[0] == values@[0]@ && vs[1] == values@[1]@);
        assert(es[0] == args@[0]@);
        let frame: Frame = match &values[1] {
            Value::Frame(f) => f.duplicate(),
            _ => {
                return Err(
                    GizmoError::TypeError(String::from_str("add_frame second argument must be a frame")),
                );
            },
        };
        let named = match &args[0] {
            Expression::Identifier(_) => true,
            _ => false,
        };
        let mut frames: Vec<Frame> = match &values[0] {
            Value::Frames(fs) => duplicate_frames(fs),
            _ => {
                if !named {
                    return Err(
                        GizmoError::TypeError(
                            String::from_str("add_frame first argument must be a frames array"),
                        ),
                    );
                }
                let empty: Vec<Frame> = Vec::new();
                assert(frames_view(empty@) =~= Seq::<FrameView>::empty());
                empty
            },
        };
        let ghost before = frames_view(frames@);
        assert(frames_wf(before));
        frames.push(frame);
        proof {
            assert(frames_view(frames@) =~= before.push(frame@));
            assert forall|i: int| 0 <= i < frames@.len() implies (#[trigger] frames_view(frames@)[i]).wf() by {
                if i < before.len() {
                    assert(frames_view(frames@)[i] == before[i]);
                }
            }
            if !(values@[0] is Frames) {
                assert(before.push(frame@) =~= seq![frame@]);
            }
        }
        match &args[0] {
            Expression::Identifier(name) => {
                let stored = Value::Frames(duplicate_frames(&frames));
                self.bind(name.clone(), stored);
            },
            _ => {},
        }
        Ok(Value::Frames(frames))
    }

    /// `pattern(width, height) { body }`: each pixel is what the body says
    /// of its `row` and `col`.
    pub fn generate_pattern_frame(&mut self, width: usize, height: usize, body: &Vec<Statement>) -> (r:
        Result<Value, GizmoError>)
        requires
            old(self).wf(),
        ensures
            final(self).spec_engine() == old(self).spec_engine(),
            final(self).wf(),
            final(self)@.scopes == old(self)@.scopes,
            final(self)@.clock == old(self)@.clock,
            r matches Ok(v) ==> v.wf(),
            generates(old(self).spec_engine(),
                statements_view(*body),
                None,
                width as int,
                height as int,
                old(self)@,
                final(self)@,
                r,
            ),
        decreases body, 3int,
    {
        let extra: Option<(String, Value)> = None;
        self.generate(width, height, &extra, body)
    }

    /// `animate(width, height) using time_var { body }`: as `pattern`, with
    /// `time_var` bound to the clock.
    pub fn generate_animated_frame(
        &mut self,
        width: usize,
        height: usize,
        time_var: &String,
        body: &Vec<Statement>,
    ) -> (r: Result<Value, GizmoError>)
        requires
            old(self).wf(),
        ensures
            final(self).spec_engine() == old(self).spec_engine(),
            final(self).wf(),
            final(self)@.scopes == old(self)@.scopes,
            final(self)@.clock == old(self)@.clock,
            r matches Ok(v) ==> v.wf(),
            generates(old(self).spec_engine(),
                statements_view(*body),
                Some((time_var@, ValueView::Number(Number::of_integer(old(self)@.clock as nat)))),
                width as int,
                height as int,
                old(self)@,
                final(self)@,
                r,
            ),
        decreases body, 3int,
    {
        let now = Number::from_integer(self.clock());
        let extra: Option<(String, Value)> = Some((time_var.clone(), Value::Number(now)));
        self.generate(width, height, &extra, body)
    }

    /// `evolve(width, height) from prev_var { body }`: as `pattern`, with
    /// `prev_var` bound to a copy of the frame that the name holds where the
    /// generator stands. A name that holds no frame is a runtime error.
    pub fn generate_cellular_frame(
        &mut self,
        width: usize,
        height: usize,
        prev_var: &String,
        body: &Vec<Statement>,
    ) -> (r: Result<Value, GizmoError>)
        requires
            old(self).wf(),
        ensures
            final(self).spec_engine() == old(self).spec_engine(),
            final(self).wf(),
            final(self)@.scopes == old(self)@.scopes,
            final(self)@.clock == old(self)@.clock,
            r matches Ok(v) ==> v.wf(),
            match resolve(old(self)@.scopes, prev_var@) {
                Some(ValueView::Frame(f)) => generates(old(self).spec_engine(),
                    statements_view(*body),
                    Some((prev_var@, ValueView::Frame(f))),
                    width as int,
                    height as int,
                    old(self)@,
                    final(self)@,
                    r,
                ),
                _ => final(self)@ == old(self)@ && r is Err && r->Err_0.kind() == ErrorKind::Runtime,
            },
        decreases body, 3int,
    {
        let previous = match self.look_up(prev_var.as_str()) {
            Ok(Value::Frame(f)) => Value::Frame(f),
            _ => {
                return Err(
                    GizmoError::RuntimeError(
                        String::from_str("Cellular automaton requires previous frame"),
                    ),
                );
            },
        };
        let extra: Option<(String, Value)> = Some((prev_var.clone(), previous));
        self.generate(width, height, &extra, body)
    }

    /// Builds a frame pixel by pixel, row by row.
    fn generate(
        &mut self,
        width: usize,
        height: usize,
        extra: &Option<(String, Value)>,
        body: &Vec<Statement>,
    ) -> (r: Result<Value, GizmoError>)
        requires
            old(self).wf(),
            extra matches Some(b) ==> b.1.wf(),
        ensures
            final(self).spec_engine() == old(self).spec_engine(),
            final(self).wf(),
            final(self)@.scopes == old(self)@.scopes,
            final(self)@.clock == old(self)@.clock,
            r matches Ok(v) ==> v.wf(),
            generates(old(self).spec_engine(),
                statements_view(*body),
                binding_view(*extra),
                width as int,
                height as int,
                old(self)@,
                final(self)@,
                r,
            ),
        decreases body, 2int,
    {
        let ghost bv = statements_view(*body);
        let ghost xv = binding_view(*extra);
        let ghost s0 = self@;
        let mut pixels: Vec<Vec<bool>> = Vec::new();
        let mut row: usize = 0;
        proof {
            lemma_painted(
                old(self).spec_engine(), bv, xv, width as int, 0, s0, s0, rows_view(pixels@),
            );
        }
        while row < height
            invariant
                self.spec_engine() == old(self).spec_engine(),
                self.wf(),
                self@.scopes == old(self)@.scopes,
                self@.clock == old(self)@.clock,
                extra matches Some(b) ==> b.1.wf(),
                bv == statements_view(*body),
                xv == binding_view(*extra),
                s0 == old(self)@,
                row <= height,
                pixels@.len() == row,
                forall|i: int| 0 <= i < row ==> (#[trigger] pixels@[i])@.len() == width,
                painted(old(self).spec_engine(), bv, xv, width as int, row as int, s0, self@, rows_view(pixels@)),
            decreases height - row,
        {
            let ghost sa = self@;
            let ghost rows = rows_view(pixels@);
            let mut line: Vec<bool> = Vec::new();
            let mut col: usize = 0;
            proof {
                lemma_painted_row(old(self).spec_engine(), bv, xv, row as int, 0, sa, sa, line@);
            }
            while col < width
                invariant
                    self.spec_engine() == old(self).spec_engine(),
                    self.wf(),
                    self@.scopes == old(self)@.scopes,
                    self@.clock == old(self)@.clock,
                    extra matches Some(b) ==> b.1.wf(),
                    bv == statements_view(*body),
                    xv == binding_view(*extra),
                    s0 == old(self)@,
                    row < height,
                    col <= width,
                    line@.len() == col,
                    rows == rows_view(pixels@),
                    painted(old(self).spec_engine(), bv, xv, width as int, row as int, s0, sa, rows),
                    painted_row(old(self).spec_engine(), bv, xv, row as int, col as int, sa, self@, line@),
                decreases width - col,
            {
                let ghost sb = self@;
                let ghost before = line@;
                proof {
                    self.lemma_wf();
                }
                let rn = Number::from_integer(row as u64);
                let cn = Number::from_integer(col as u64);
                self.enter_pixel(rn, cn, extra);
                let lit = self.run_pixel_body(body);
                let ghost sm = self@;
                self.leave_pixel();
                proof {
                    lemma_paints_via(
                        old(self).spec_engine(), bv, xv, row as int, col as int, sb, sm, self@, lit,
                    );
                    assert(paints_via(
                        old(self).spec_engine(), bv, xv, row as int, col as int, sb, sm, self@, lit,
                    ));
                    lemma_paints(
                        old(self).spec_engine(), bv, xv, row as int, col as int, sb, self@, lit,
                    );
                }
                match lit {
                    Ok(on) => {
                        line.push(on);
                        proof {
                            assert(line@.drop_last() =~= before);
                            lemma_painted_row_via(
                                old(self).spec_engine(), bv, xv, row as int, col + 1, sa, sb, self@,
                                line@,
                            );
                            assert(painted_row_via(
                                old(self).spec_engine(), bv, xv, row as int, col + 1, sa, sb, self@,
                                line@,
                            ));
                            lemma_painted_row(
                                old(self).spec_engine(), bv, xv, row as int, col + 1, sa, self@,
                                line@,
                            );
                        }
                    },
                    Err(e) => {
                        proof {
                            lemma_pixel_fails(old(self).spec_engine(),
                                bv,
                                xv,
                                width as int,
                                height as int,
                                row as int,
                                col as int,
                                s0,
                                sa,
                                sb,
                                rows,
                                before,
                                self@,
                                e,
                            );
                            assert(pixel_fails(old(self).spec_engine(),
                                bv,
                                xv,
                                width as int,
                                height as int,
                                row as int,
                                col as int,
                                s0,
                                sa,
                                sb,
                                rows,
                                before,
                                self@,
                                e,
                            ));
                            lemma_generates(old(self).spec_engine(),
                                bv,
                                xv,
                                width as int,
                                height as int,
                                s0,
                                self@,
                                Err(e),
                            );
                        }
                        return Err(e);
                    },
                }
                col = col + 1;
            }
            pixels.push(line);
            proof {
                let longer = rows_view(pixels@);
                assert(longer.drop_last() =~= rows);
                assert(longer.last() == line@);
                lemma_painted_via(
                    old(self).spec_engine(), bv, xv, width as int, row + 1, s0, sa, self@, longer,
                );
                assert(painted_via(
                    old(self).spec_engine(), bv, xv, width as int, row + 1, s0, sa, self@, longer,
                ));
                lemma_painted(
                    old(self).spec_engine(), bv, xv, width as int, row + 1, s0, self@, longer,
                );
            }
            row = row + 1;
        }
        let f = Frame { width, height, pixels };
        proof {
            assert forall|i: int| 0 <= i < f@.height implies (#[trigger] f@.rows[i]).len() == f@.width by {
                assert(f@.rows[i] == pixels@[i]@);
            }
        }
        let v = Value::Frame(f);
        proof {
            lemma_frame_via(
                old(self).spec_engine(), bv, xv, width as int, height as int, s0, self@,
                rows_view(pixels@), v,
            );
            assert(frame_via(
                old(self).spec_engine(), bv, xv, width as int, height as int, s0, self@,
                rows_view(pixels@), v,
            ));
            lemma_generates(
                old(self).spec_engine(), bv, xv, width as int, height as int, s0, self@, Ok(v),
            );
        }
        Ok(v)
    }

    /// What the body of a generator says of one pixel.
    fn run_pixel_body(&mut self, body: &Vec<Statement>) -> (r: Result<bool, GizmoError>)
        requires
            old(self).wf(),
        ensures
            final(self).spec_engine() == old(self).spec_engine(),
            final(self).wf(),
            preserved(old(self)@, final(self)@),
            decides(old(self).spec_engine(), statements_view(*body), old(self)@, final(self)@, r),
        decreases body, 1int,
    {
        let ghost bv = statements_view(*body);
        let ghost s0 = self@;
        let mut i: usize = 0;
        proof {
            lemma_ran(old(self).spec_engine(), bv, 0, s0, s0);
        }
        while i < body.len()
            invariant
                self.spec_engine() == old(self).spec_engine(),
                self.wf(),
                preserved(old(self)@, self@),
                i <= body@.len(),
                bv == statements_view(*body),
                s0 == old(self)@,
                ran(old(self).spec_engine(), bv, i as int, s0, self@),
            decreases body@.len() - i,
        {
            let ghost sm = self@;
            let last = i + 1 == body.len();
            assert(bv[i as int] == body@[i as int]@);
            match &body[i] {
                Statement::ExpressionStatement(e) => {
                    if last {
                        let rv = self.evaluate_expression(e);
                        let ghost rvg = rv;
                        let r = match rv {
                            Err(x) => Err(x),
                            Ok(v) => Ok(v.is_truthy()),
                        };
                        proof {
                            let rf = Ok::<Flow, GizmoError>(Flow::Normal);
                            lemma_decides_via(
                                old(self).spec_engine(), bv, i as int, s0, sm, rf, rvg, self@, r,
                            );
                            assert(decides_via(
                                old(self).spec_engine(), bv, i as int, s0, sm, rf, rvg, self@, r,
                            ));
                            lemma_decides(old(self).spec_engine(), bv, s0, self@, r);
                        }
                        return r;
                    }
                    let rf = self.execute_statement(&body[i]);
                    match rf {
                        Err(x) => {
                            proof {
                                let rv = Ok::<Value, GizmoError>(Value::Boolean(false));
                                let r = Err::<bool, GizmoError>(x);
                                lemma_decides_via(
                                    old(self).spec_engine(), bv, i as int, s0, sm, rf, rv, self@, r,
                                );
                                assert(decides_via(
                                    old(self).spec_engine(), bv, i as int, s0, sm, rf, rv, self@, r,
                                ));
                                lemma_decides(old(self).spec_engine(), bv, s0, self@, r);
                            }
                            return Err(x);
                        },
                        Ok(flow) => {
                            proof {
                                lemma_ran_via(old(self).spec_engine(), bv, i + 1, s0, sm, self@);
                                assert(ran_via(old(self).spec_engine(), bv, i + 1, s0, sm, self@));
                                lemma_ran(old(self).spec_engine(), bv, i + 1, s0, self@);
                            }
                        },
                    }
                },
                other => {
                    let rf = self.execute_statement(other);
                    let ghost rfg = rf;
                    match rf {
                        Ok(Flow::Normal) => {
                            proof {
                                lemma_ran_via(old(self).spec_engine(), bv, i + 1, s0, sm, self@);
                                assert(ran_via(old(self).spec_engine(), bv, i + 1, s0, sm, self@));
                                lemma_ran(old(self).spec_engine(), bv, i + 1, s0, self@);
                            }
                        },
                        Ok(Flow::Returned(v)) => {
                            let r = Ok(v.is_truthy());
                            proof {
                                let rv = Ok::<Value, GizmoError>(Value::Boolean(false));
                                lemma_decides_via(
                                    old(self).spec_engine(), bv, i as int, s0, sm, rfg, rv, self@,
                                    r,
                                );
                                assert(decides_via(
                                    old(self).spec_engine(), bv, i as int, s0, sm, rfg, rv, self@,
                                    r,
                                ));
                                lemma_decides(old(self).spec_engine(), bv, s0, self@, r);
                            }
                            return r;
                        },
                        Err(x) => {
                            proof {
                                let rv = Ok::<Value, GizmoError>(Value::Boolean(false));
                                let r = Err::<bool, GizmoError>(x);
                                lemma_decides_via(
                                    old(self).spec_engine(), bv, i as int, s0, sm, rfg, rv, self@,
                                    r,
                                );
                                assert(decides_via(
                                    old(self).spec_engine(), bv, i as int, s0, sm, rfg, rv, self@,
                                    r,
                                ));
                                lemma_decides(old(self).spec_engine(), bv, s0, self@, r);
                            }
                            return Err(x);
                        },
                    }
                },
            }
            i = i + 1;
        }
        proof {
            let rf = Ok::<Flow, GizmoError>(Flow::Normal);
            let rv = Ok::<Value, GizmoError>(Value::Boolean(false));
            let r = Ok::<bool, GizmoError>(false);
            lemma_decides_via(
                old(self).spec_engine(), bv, bv.len() as int, s0, self@, rf, rv, self@, r,
            );
            assert(decides_via(
                old(self).spec_engine(), bv, bv.len() as int, s0, self@, rf, rv, self@, r,
            ));
            lemma_decides(old(self).spec_engine(), bv, s0, self@, r);
        }
        Ok(false)
    }
}

} // verus!
